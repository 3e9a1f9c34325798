//! The constant pool: a table of tagged records read once from the byte
//! buffer and then queried by 1-based index throughout the rest of the
//! decode.

use vstd::prelude::*;

use crate::error::Error;
use crate::pos_slice::PoSlice;
use crate::pos_slice::spec_read_slice;
use crate::pos_slice::spec_read_u1;
use crate::pos_slice::spec_read_u2;
use crate::pos_slice::spec_read_u4;
use vstd::utf8::decode_utf8;
use vstd::utf8::valid_utf8;

verus! {

/// The one-byte discriminator in front of every constant-pool record.
#[allow(non_camel_case_types)]
#[derive(Debug, Clone, Copy, PartialEq, Eq, Structural)]
pub enum Tag {
    UTF8,
    INTEGER,
    FLOAT,
    LONG,
    DOUBLE,
    CLASS,
    STRING,
    FIELD_REF,
    METHOD_REF,
    INTERFACE_METHOD_REF,
    NAME_AND_TYPE,
    METHOD_HANDLE,
    METHOD_TYPE,
    INVOKE_DYNAMIC,
}

/// The tag named by a raw tag byte, or `None` for a byte that names no
/// record kind.
pub open spec fn spec_tag_of(val: u8) -> Option<Tag> {
    match val {
        1u8 => Some(Tag::UTF8),
        3u8 => Some(Tag::INTEGER),
        4u8 => Some(Tag::FLOAT),
        5u8 => Some(Tag::LONG),
        6u8 => Some(Tag::DOUBLE),
        7u8 => Some(Tag::CLASS),
        8u8 => Some(Tag::STRING),
        9u8 => Some(Tag::FIELD_REF),
        10u8 => Some(Tag::METHOD_REF),
        11u8 => Some(Tag::INTERFACE_METHOD_REF),
        12u8 => Some(Tag::NAME_AND_TYPE),
        15u8 => Some(Tag::METHOD_HANDLE),
        16u8 => Some(Tag::METHOD_TYPE),
        18u8 => Some(Tag::INVOKE_DYNAMIC),
        _ => None,
    }
}

impl Tag {
    /// Decodes a raw tag byte; an unknown byte is an error because the
    /// format has no forward-compatible constant kind.
    pub fn new(val: u8) -> (r: Result<Self, Error>)
        ensures
            r == match spec_tag_of(val) {
                Some(t) => Ok::<Tag, Error>(t),
                None => Err::<Tag, Error>(Error::CPTag(val)),
            },
    {
        match val {
            1u8 => Ok(Tag::UTF8),
            3u8 => Ok(Tag::INTEGER),
            4u8 => Ok(Tag::FLOAT),
            5u8 => Ok(Tag::LONG),
            6u8 => Ok(Tag::DOUBLE),
            7u8 => Ok(Tag::CLASS),
            8u8 => Ok(Tag::STRING),
            9u8 => Ok(Tag::FIELD_REF),
            10u8 => Ok(Tag::METHOD_REF),
            11u8 => Ok(Tag::INTERFACE_METHOD_REF),
            12u8 => Ok(Tag::NAME_AND_TYPE),
            15u8 => Ok(Tag::METHOD_HANDLE),
            16u8 => Ok(Tag::METHOD_TYPE),
            18u8 => Ok(Tag::INVOKE_DYNAMIC),
            _ => Err(Error::CPTag(val)),
        }
    }
}

/// The nine reference kinds a MethodHandle constant may carry, encoded
/// as the bytes 1 through 9.
#[derive(Debug, Clone, Copy, PartialEq, Eq, Structural)]
pub enum RefKind {
    GetField,
    GetStatic,
    PutField,
    PutStatic,
    InvokeVirtual,
    InvokeStatic,
    InvokeSpecial,
    NewInvokeSpecial,
    InvokeInterface,
}

/// The reference kind named by a raw byte, or `None` for a byte outside
/// 1..=9.
pub open spec fn spec_ref_kind_of(val: u8) -> Option<RefKind> {
    match val {
        1u8 => Some(RefKind::GetField),
        2u8 => Some(RefKind::GetStatic),
        3u8 => Some(RefKind::PutField),
        4u8 => Some(RefKind::PutStatic),
        5u8 => Some(RefKind::InvokeVirtual),
        6u8 => Some(RefKind::InvokeStatic),
        7u8 => Some(RefKind::InvokeSpecial),
        8u8 => Some(RefKind::NewInvokeSpecial),
        9u8 => Some(RefKind::InvokeInterface),
        _ => None,
    }
}

impl RefKind {
    /// Decodes a reference-kind byte; bytes outside 1..=9 are rejected.
    pub fn read(val: u8) -> (r: Result<Self, Error>)
        ensures
            r == match spec_ref_kind_of(val) {
                Some(k) => Ok::<RefKind, Error>(k),
                None => Err::<RefKind, Error>(Error::WrongKind(val)),
            },
    {
        match val {
            1u8 => Ok(RefKind::GetField),
            2u8 => Ok(RefKind::GetStatic),
            3u8 => Ok(RefKind::PutField),
            4u8 => Ok(RefKind::PutStatic),
            5u8 => Ok(RefKind::InvokeVirtual),
            6u8 => Ok(RefKind::InvokeStatic),
            7u8 => Ok(RefKind::InvokeSpecial),
            8u8 => Ok(RefKind::NewInvokeSpecial),
            9u8 => Ok(RefKind::InvokeInterface),
            _ => Err(Error::WrongKind(val)),
        }
    }
}

/// The mathematical content of one constant-pool record.
pub enum CPInfoView {
    Class { name_index: u16 },
    Fieldref { class_index: u16, name_and_type_index: u16 },
    Methodref { class_index: u16, name_and_type_index: u16 },
    InterfaceMethodref { class_index: u16, name_and_type_index: u16 },
    String { string_index: u16 },
    Integer { bits: u32 },
    Float { bits: u32 },
    Long { high: u32, low: u32 },
    Double { high: u32, low: u32 },
    NameAndType { name_index: u16, descriptor_index: u16 },
    Utf8 { chars: Seq<char> },
    MethodHandle { reference_kind: RefKind, reference_index: u16 },
    MethodType { descriptor_index: u16 },
    InvokeDynamic { bootstrap_method_attr_index: u16, name_and_type_index: u16 },
}

/// The tag of a record.
pub open spec fn tag_of_view(v: CPInfoView) -> Tag {
    match v {
        CPInfoView::Class { .. } => Tag::CLASS,
        CPInfoView::Fieldref { .. } => Tag::FIELD_REF,
        CPInfoView::Methodref { .. } => Tag::METHOD_REF,
        CPInfoView::InterfaceMethodref { .. } => Tag::INTERFACE_METHOD_REF,
        CPInfoView::String { .. } => Tag::STRING,
        CPInfoView::Integer { .. } => Tag::INTEGER,
        CPInfoView::Float { .. } => Tag::FLOAT,
        CPInfoView::Long { .. } => Tag::LONG,
        CPInfoView::Double { .. } => Tag::DOUBLE,
        CPInfoView::NameAndType { .. } => Tag::NAME_AND_TYPE,
        CPInfoView::Utf8 { .. } => Tag::UTF8,
        CPInfoView::MethodHandle { .. } => Tag::METHOD_HANDLE,
        CPInfoView::MethodType { .. } => Tag::METHOD_TYPE,
        CPInfoView::InvokeDynamic { .. } => Tag::INVOKE_DYNAMIC,
    }
}

/// True of the two record kinds that occupy two pool slots.
pub open spec fn is_wide(v: CPInfoView) -> bool {
    v is Long || v is Double
}

/// Outcome of reading two consecutive big-endian 16-bit values.
pub open spec fn spec_read_u2_pair(b: Seq<u8>, pos: int) -> (Result<(u16, u16), Error>, int) {
    let (r1, p1) = spec_read_u2(b, pos);
    match r1 {
        Err(e) => (Err(e), p1),
        Ok(a) => {
            let (r2, p2) = spec_read_u2(b, p1);
            match r2 {
                Err(e) => (Err(e), p2),
                Ok(c) => (Ok((a, c)), p2),
            }
        },
    }
}

/// Outcome of reading two consecutive big-endian 32-bit values.
pub open spec fn spec_read_u4_pair(b: Seq<u8>, pos: int) -> (Result<(u32, u32), Error>, int) {
    let (r1, p1) = spec_read_u4(b, pos);
    match r1 {
        Err(e) => (Err(e), p1),
        Ok(a) => {
            let (r2, p2) = spec_read_u4(b, p1);
            match r2 {
                Err(e) => (Err(e), p2),
                Ok(c) => (Ok((a, c)), p2),
            }
        },
    }
}

/// Outcome of reading a Utf8 record body: a 16-bit byte length followed by
/// that many bytes, which must form valid UTF-8.
pub open spec fn spec_read_utf8(b: Seq<u8>, pos: int) -> (Result<Seq<char>, Error>, int) {
    let (r1, p1) = spec_read_u2(b, pos);
    match r1 {
        Err(e) => (Err(e), p1),
        Ok(len) => {
            let (r2, p2) = spec_read_slice(b, p1, len as int);
            match r2 {
                Err(e) => (Err(e), p2),
                Ok(bs) => if valid_utf8(bs) {
                    (Ok(decode_utf8(bs)), p2)
                } else {
                    (Err(Error::InvalidUtf8), p2)
                },
            }
        },
    }
}

/// Outcome of reading a MethodHandle record body: a kind byte and a 16-bit
/// index; the kind byte is checked only after the index has been read.
pub open spec fn spec_read_method_handle(b: Seq<u8>, pos: int) -> (
    Result<(RefKind, u16), Error>,
    int,
) {
    let (r1, p1) = spec_read_u1(b, pos);
    match r1 {
        Err(e) => (Err(e), p1),
        Ok(k) => {
            let (r2, p2) = spec_read_u2(b, p1);
            match r2 {
                Err(e) => (Err(e), p2),
                Ok(idx) => match spec_ref_kind_of(k) {
                    Some(rk) => (Ok((rk, idx)), p2),
                    None => (Err(Error::WrongKind(k)), p2),
                },
            }
        },
    }
}

/// Outcome of reading the body of a record whose tag is `t`, with the tag
/// byte already consumed.
pub open spec fn spec_cp_record(b: Seq<u8>, pos: int, t: Tag) -> (Result<CPInfoView, Error>, int) {
    match t {
        Tag::CLASS => {
            let (r, p) = spec_read_u2(b, pos);
            (
                match r {
                    Ok(v) => Ok(CPInfoView::Class { name_index: v }),
                    Err(e) => Err(e),
                },
                p,
            )
        },
        Tag::FIELD_REF => {
            let (r, p) = spec_read_u2_pair(b, pos);
            (
                match r {
                    Ok(v) => Ok(CPInfoView::Fieldref { class_index: v.0, name_and_type_index: v.1 }),
                    Err(e) => Err(e),
                },
                p,
            )
        },
        Tag::METHOD_REF => {
            let (r, p) = spec_read_u2_pair(b, pos);
            (
                match r {
                    Ok(v) => Ok(
                        CPInfoView::Methodref { class_index: v.0, name_and_type_index: v.1 },
                    ),
                    Err(e) => Err(e),
                },
                p,
            )
        },
        Tag::INTERFACE_METHOD_REF => {
            let (r, p) = spec_read_u2_pair(b, pos);
            (
                match r {
                    Ok(v) => Ok(
                        CPInfoView::InterfaceMethodref {
                            class_index: v.0,
                            name_and_type_index: v.1,
                        },
                    ),
                    Err(e) => Err(e),
                },
                p,
            )
        },
        Tag::STRING => {
            let (r, p) = spec_read_u2(b, pos);
            (
                match r {
                    Ok(v) => Ok(CPInfoView::String { string_index: v }),
                    Err(e) => Err(e),
                },
                p,
            )
        },
        Tag::INTEGER => {
            let (r, p) = spec_read_u4(b, pos);
            (
                match r {
                    Ok(v) => Ok(CPInfoView::Integer { bits: v }),
                    Err(e) => Err(e),
                },
                p,
            )
        },
        Tag::FLOAT => {
            let (r, p) = spec_read_u4(b, pos);
            (
                match r {
                    Ok(v) => Ok(CPInfoView::Float { bits: v }),
                    Err(e) => Err(e),
                },
                p,
            )
        },
        Tag::LONG => {
            let (r, p) = spec_read_u4_pair(b, pos);
            (
                match r {
                    Ok(v) => Ok(CPInfoView::Long { high: v.0, low: v.1 }),
                    Err(e) => Err(e),
                },
                p,
            )
        },
        Tag::DOUBLE => {
            let (r, p) = spec_read_u4_pair(b, pos);
            (
                match r {
                    Ok(v) => Ok(CPInfoView::Double { high: v.0, low: v.1 }),
                    Err(e) => Err(e),
                },
                p,
            )
        },
        Tag::NAME_AND_TYPE => {
            let (r, p) = spec_read_u2_pair(b, pos);
            (
                match r {
                    Ok(v) => Ok(
                        CPInfoView::NameAndType { name_index: v.0, descriptor_index: v.1 },
                    ),
                    Err(e) => Err(e),
                },
                p,
            )
        },
        Tag::UTF8 => {
            let (r, p) = spec_read_utf8(b, pos);
            (
                match r {
                    Ok(v) => Ok(CPInfoView::Utf8 { chars: v }),
                    Err(e) => Err(e),
                },
                p,
            )
        },
        Tag::METHOD_HANDLE => {
            let (r, p) = spec_read_method_handle(b, pos);
            (
                match r {
                    Ok(v) => Ok(
                        CPInfoView::MethodHandle { reference_kind: v.0, reference_index: v.1 },
                    ),
                    Err(e) => Err(e),
                },
                p,
            )
        },
        Tag::METHOD_TYPE => {
            let (r, p) = spec_read_u2(b, pos);
            (
                match r {
                    Ok(v) => Ok(CPInfoView::MethodType { descriptor_index: v }),
                    Err(e) => Err(e),
                },
                p,
            )
        },
        Tag::INVOKE_DYNAMIC => {
            let (r, p) = spec_read_u2_pair(b, pos);
            (
                match r {
                    Ok(v) => Ok(
                        CPInfoView::InvokeDynamic {
                            bootstrap_method_attr_index: v.0,
                            name_and_type_index: v.1,
                        },
                    ),
                    Err(e) => Err(e),
                },
                p,
            )
        },
    }
}

/// Outcome of reading one whole constant-pool record: a tag byte, then the
/// record body that the tag selects.
pub open spec fn spec_cp_info(b: Seq<u8>, pos: int) -> (Result<CPInfoView, Error>, int) {
    let (tr, p1) = spec_read_u1(b, pos);
    match tr {
        Err(e) => (Err(e), p1),
        Ok(tag) => match spec_tag_of(tag) {
            None => (Err(Error::CPTag(tag)), p1),
            Some(t) => spec_cp_record(b, p1, t),
        },
    }
}

/// A symbolic reference to a class; `name_index` points at a Utf8 record.
#[derive(Clone, Copy)]
pub struct ConstantClass {
    pub name_index: u16,
}

impl ConstantClass {
    /// Reads the record body (the tag byte is already consumed).
    pub fn read(slice: &mut PoSlice) -> (r: Result<Self, Error>)
        requires
            old(slice).wf(),
        ensures
            final(slice).wf(),
            final(slice).bytes_view() == old(slice).bytes_view(),
            ({
                let (r0, p0) = spec_read_u2(old(slice).bytes_view(), old(slice).spec_pos());
                &&& final(slice).spec_pos() == p0
                &&& match r0 {
                    Ok(v) => r is Ok && r->Ok_0.name_index == v,
                    Err(e) => r == Err::<ConstantClass, Error>(e),
                }
            }),
    {
        let name_index = slice.read_u2()?;
        Ok(ConstantClass { name_index })
    }
}

/// A reference to a field: the owning class and its name-and-type record.
#[derive(Clone)]
pub struct ConstantFieldref {
    pub class_index: u16,
    pub name_and_type_index: u16,
}

impl ConstantFieldref {
    /// Reads the record body.
    pub fn read(slice: &mut PoSlice) -> (r: Result<Self, Error>)
        requires
            old(slice).wf(),
        ensures
            final(slice).wf(),
            final(slice).bytes_view() == old(slice).bytes_view(),
            ({
                let (r0, p0) = spec_read_u2_pair(old(slice).bytes_view(), old(slice).spec_pos());
                &&& final(slice).spec_pos() == p0
                &&& match r0 {
                    Ok(v) => r is Ok && r->Ok_0.class_index == v.0 && r->Ok_0.name_and_type_index
                        == v.1,
                    Err(e) => r == Err::<ConstantFieldref, Error>(e),
                }
            }),
    {
        let class_index = slice.read_u2()?;
        let name_and_type_index = slice.read_u2()?;
        Ok(ConstantFieldref { class_index, name_and_type_index })
    }
}

/// A reference to a method: the owning class and its name-and-type record.
#[derive(Clone)]
pub struct ConstantMethodref {
    pub class_index: u16,
    pub name_and_type_index: u16,
}

impl ConstantMethodref {
    /// Reads the record body.
    pub fn read(slice: &mut PoSlice) -> (r: Result<Self, Error>)
        requires
            old(slice).wf(),
        ensures
            final(slice).wf(),
            final(slice).bytes_view() == old(slice).bytes_view(),
            ({
                let (r0, p0) = spec_read_u2_pair(old(slice).bytes_view(), old(slice).spec_pos());
                &&& final(slice).spec_pos() == p0
                &&& match r0 {
                    Ok(v) => r is Ok && r->Ok_0.class_index == v.0 && r->Ok_0.name_and_type_index
                        == v.1,
                    Err(e) => r == Err::<ConstantMethodref, Error>(e),
                }
            }),
    {
        let class_index = slice.read_u2()?;
        let name_and_type_index = slice.read_u2()?;
        Ok(ConstantMethodref { class_index, name_and_type_index })
    }
}

/// A reference to an interface method.
#[derive(Clone)]
pub struct ConstantInterfaceMethodref {
    pub class_index: u16,
    pub name_and_type_index: u16,
}

impl ConstantInterfaceMethodref {
    /// Reads the record body.
    pub fn read(slice: &mut PoSlice) -> (r: Result<Self, Error>)
        requires
            old(slice).wf(),
        ensures
            final(slice).wf(),
            final(slice).bytes_view() == old(slice).bytes_view(),
            ({
                let (r0, p0) = spec_read_u2_pair(old(slice).bytes_view(), old(slice).spec_pos());
                &&& final(slice).spec_pos() == p0
                &&& match r0 {
                    Ok(v) => r is Ok && r->Ok_0.class_index == v.0 && r->Ok_0.name_and_type_index
                        == v.1,
                    Err(e) => r == Err::<ConstantInterfaceMethodref, Error>(e),
                }
            }),
    {
        let class_index = slice.read_u2()?;
        let name_and_type_index = slice.read_u2()?;
        Ok(ConstantInterfaceMethodref { class_index, name_and_type_index })
    }
}

/// A string literal; `string_index` points at a Utf8 record.
#[derive(Clone)]
pub struct ConstantString {
    pub string_index: u16,
}

impl ConstantString {
    /// Reads the record body.
    pub fn read(slice: &mut PoSlice) -> (r: Result<Self, Error>)
        requires
            old(slice).wf(),
        ensures
            final(slice).wf(),
            final(slice).bytes_view() == old(slice).bytes_view(),
            ({
                let (r0, p0) = spec_read_u2(old(slice).bytes_view(), old(slice).spec_pos());
                &&& final(slice).spec_pos() == p0
                &&& match r0 {
                    Ok(v) => r is Ok && r->Ok_0.string_index == v,
                    Err(e) => r == Err::<ConstantString, Error>(e),
                }
            }),
    {
        Ok(ConstantString { string_index: slice.read_u2()? })
    }
}

/// A 32-bit integer constant, kept as its raw big-endian bits.
#[derive(Clone, Copy)]
pub struct ConstantInteger(pub u32);

impl ConstantInteger {
    /// Reads the record body.
    pub fn read(slice: &mut PoSlice) -> (r: Result<Self, Error>)
        requires
            old(slice).wf(),
        ensures
            final(slice).wf(),
            final(slice).bytes_view() == old(slice).bytes_view(),
            ({
                let (r0, p0) = spec_read_u4(old(slice).bytes_view(), old(slice).spec_pos());
                &&& final(slice).spec_pos() == p0
                &&& match r0 {
                    Ok(v) => r is Ok && r->Ok_0.0 == v,
                    Err(e) => r == Err::<ConstantInteger, Error>(e),
                }
            }),
    {
        Ok(ConstantInteger(slice.read_u4()?))
    }
}

/// A 32-bit float constant, kept as its raw big-endian bits; the decoder
/// never interprets them.
#[derive(Clone, Copy)]
pub struct ConstantFloat(pub u32);

impl ConstantFloat {
    /// Reads the record body.
    pub fn read(slice: &mut PoSlice) -> (r: Result<Self, Error>)
        requires
            old(slice).wf(),
        ensures
            final(slice).wf(),
            final(slice).bytes_view() == old(slice).bytes_view(),
            ({
                let (r0, p0) = spec_read_u4(old(slice).bytes_view(), old(slice).spec_pos());
                &&& final(slice).spec_pos() == p0
                &&& match r0 {
                    Ok(v) => r is Ok && r->Ok_0.0 == v,
                    Err(e) => r == Err::<ConstantFloat, Error>(e),
                }
            }),
    {
        Ok(ConstantFloat(slice.read_u4()?))
    }
}

/// A 64-bit integer constant as two raw 32-bit halves, high half first;
/// it occupies two pool slots.
#[derive(Clone, Copy)]
pub struct ConstantLong(pub u32, pub u32);

impl ConstantLong {
    /// Reads the record body.
    pub fn read(slice: &mut PoSlice) -> (r: Result<Self, Error>)
        requires
            old(slice).wf(),
        ensures
            final(slice).wf(),
            final(slice).bytes_view() == old(slice).bytes_view(),
            ({
                let (r0, p0) = spec_read_u4_pair(old(slice).bytes_view(), old(slice).spec_pos());
                &&& final(slice).spec_pos() == p0
                &&& match r0 {
                    Ok(v) => r is Ok && r->Ok_0.0 == v.0 && r->Ok_0.1 == v.1,
                    Err(e) => r == Err::<ConstantLong, Error>(e),
                }
            }),
    {
        let high_bytes = slice.read_u4()?;
        let low_bytes = slice.read_u4()?;
        Ok(ConstantLong(high_bytes, low_bytes))
    }
}

/// A 64-bit float constant as two raw 32-bit halves, high half first;
/// it occupies two pool slots and is never interpreted.
#[derive(Clone, Copy)]
pub struct ConstantDouble(pub u32, pub u32);

impl ConstantDouble {
    /// Reads the record body.
    pub fn read(slice: &mut PoSlice) -> (r: Result<Self, Error>)
        requires
            old(slice).wf(),
        ensures
            final(slice).wf(),
            final(slice).bytes_view() == old(slice).bytes_view(),
            ({
                let (r0, p0) = spec_read_u4_pair(old(slice).bytes_view(), old(slice).spec_pos());
                &&& final(slice).spec_pos() == p0
                &&& match r0 {
                    Ok(v) => r is Ok && r->Ok_0.0 == v.0 && r->Ok_0.1 == v.1,
                    Err(e) => r == Err::<ConstantDouble, Error>(e),
                }
            }),
    {
        let high_bytes = slice.read_u4()?;
        let low_bytes = slice.read_u4()?;
        Ok(ConstantDouble(high_bytes, low_bytes))
    }
}

/// A name and a descriptor, both as indices of Utf8 records.
#[derive(Clone)]
pub struct ConstantNameAndType {
    pub name_index: u16,
    pub descriptor_index: u16,
}

impl ConstantNameAndType {
    /// Reads the record body.
    pub fn read(slice: &mut PoSlice) -> (r: Result<Self, Error>)
        requires
            old(slice).wf(),
        ensures
            final(slice).wf(),
            final(slice).bytes_view() == old(slice).bytes_view(),
            ({
                let (r0, p0) = spec_read_u2_pair(old(slice).bytes_view(), old(slice).spec_pos());
                &&& final(slice).spec_pos() == p0
                &&& match r0 {
                    Ok(v) => r is Ok && r->Ok_0.name_index == v.0 && r->Ok_0.descriptor_index
                        == v.1,
                    Err(e) => r == Err::<ConstantNameAndType, Error>(e),
                }
            }),
    {
        let name_index = slice.read_u2()?;
        let descriptor_index = slice.read_u2()?;
        Ok(ConstantNameAndType { name_index, descriptor_index })
    }
}

/// Relies on `String::from_utf8`: it succeeds exactly on byte sequences
/// that are valid UTF-8 and then decodes them; vstd's `valid_utf8` and
/// `decode_utf8` state the same encoding.
#[verifier::external_body]
fn utf8_to_string(bytes: Vec<u8>) -> (r: Option<String>)
    ensures
        r is Some <==> valid_utf8(bytes@),
        r is Some ==> r->Some_0@ == decode_utf8(bytes@),
{
    match String::from_utf8(bytes) {
        Ok(s) => Some(s),
        Err(_) => None,
    }
}

/// A text constant, decoded eagerly to an owned string.
#[derive(Clone)]
pub struct ConstantUtf8(pub String);

impl ConstantUtf8 {
    /// Reads the record body: a 16-bit byte length and that many bytes of
    /// UTF-8 text.
    pub fn read(slice: &mut PoSlice) -> (r: Result<Self, Error>)
        requires
            old(slice).wf(),
        ensures
            final(slice).wf(),
            final(slice).bytes_view() == old(slice).bytes_view(),
            ({
                let (r0, p0) = spec_read_utf8(old(slice).bytes_view(), old(slice).spec_pos());
                &&& final(slice).spec_pos() == p0
                &&& match r0 {
                    Ok(v) => r is Ok && r->Ok_0.0@ == v,
                    Err(e) => r == Err::<ConstantUtf8, Error>(e),
                }
            }),
    {
        let length = slice.read_u2()?;
        let bytes = slice.read_slice_vec(length as usize)?;
        match utf8_to_string(bytes) {
            Some(text) => Ok(ConstantUtf8(text)),
            None => Err(Error::InvalidUtf8),
        }
    }
}

/// A method handle: a reference kind and the index of the record it refers
/// to.
#[derive(Clone)]
pub struct ConstantMethodHandle {
    pub reference_kind: RefKind,
    pub reference_index: u16,
}

impl ConstantMethodHandle {
    /// Reads the record body; the kind byte is validated only after the
    /// index has been read.
    pub fn read(slice: &mut PoSlice) -> (r: Result<Self, Error>)
        requires
            old(slice).wf(),
        ensures
            final(slice).wf(),
            final(slice).bytes_view() == old(slice).bytes_view(),
            ({
                let (r0, p0) = spec_read_method_handle(
                    old(slice).bytes_view(),
                    old(slice).spec_pos(),
                );
                &&& final(slice).spec_pos() == p0
                &&& match r0 {
                    Ok(v) => r is Ok && r->Ok_0.reference_kind == v.0 && r->Ok_0.reference_index
                        == v.1,
                    Err(e) => r == Err::<ConstantMethodHandle, Error>(e),
                }
            }),
    {
        let ref_kind = slice.read_u1()?;
        let reference_index = slice.read_u2()?;
        Ok(ConstantMethodHandle { reference_kind: RefKind::read(ref_kind)?, reference_index })
    }
}

/// A method type; `descriptor_index` points at a Utf8 record.
#[derive(Clone)]
pub struct ConstantMethodType {
    pub descriptor_index: u16,
}

impl ConstantMethodType {
    /// Reads the record body.
    pub fn read(slice: &mut PoSlice) -> (r: Result<Self, Error>)
        requires
            old(slice).wf(),
        ensures
            final(slice).wf(),
            final(slice).bytes_view() == old(slice).bytes_view(),
            ({
                let (r0, p0) = spec_read_u2(old(slice).bytes_view(), old(slice).spec_pos());
                &&& final(slice).spec_pos() == p0
                &&& match r0 {
                    Ok(v) => r is Ok && r->Ok_0.descriptor_index == v,
                    Err(e) => r == Err::<ConstantMethodType, Error>(e),
                }
            }),
    {
        Ok(ConstantMethodType { descriptor_index: slice.read_u2()? })
    }
}

/// An invokedynamic call site: a bootstrap-method index and a name-and-type
/// index.
#[derive(Clone)]
pub struct ConstantInvokeDynamic {
    pub bootstrap_method_attr_index: u16,
    pub name_and_type_index: u16,
}

impl ConstantInvokeDynamic {
    /// Reads the record body.
    pub fn read(slice: &mut PoSlice) -> (r: Result<Self, Error>)
        requires
            old(slice).wf(),
        ensures
            final(slice).wf(),
            final(slice).bytes_view() == old(slice).bytes_view(),
            ({
                let (r0, p0) = spec_read_u2_pair(old(slice).bytes_view(), old(slice).spec_pos());
                &&& final(slice).spec_pos() == p0
                &&& match r0 {
                    Ok(v) => r is Ok && r->Ok_0.bootstrap_method_attr_index == v.0
                        && r->Ok_0.name_and_type_index == v.1,
                    Err(e) => r == Err::<ConstantInvokeDynamic, Error>(e),
                }
            }),
    {
        let bootstrap_method_attr_index = slice.read_u2()?;
        let name_and_type_index = slice.read_u2()?;
        Ok(ConstantInvokeDynamic { bootstrap_method_attr_index, name_and_type_index })
    }
}

/// One decoded constant-pool record, of any of the fourteen kinds.
#[derive(Clone)]
pub enum CPInfoRep {
    Class(ConstantClass),
    Fieldref(ConstantFieldref),
    Methodref(ConstantMethodref),
    InterfaceMethodref(ConstantInterfaceMethodref),
    String(ConstantString),
    Integer(ConstantInteger),
    Float(ConstantFloat),
    Long(ConstantLong),
    Double(ConstantDouble),
    NameAndType(ConstantNameAndType),
    Utf8(ConstantUtf8),
    MethodHandle(ConstantMethodHandle),
    MethodType(ConstantMethodType),
    InvokeDynamic(ConstantInvokeDynamic),
}

impl View for CPInfoRep {
    type V = CPInfoView;

    open spec fn view(&self) -> CPInfoView {
        match self {
            CPInfoRep::Class(c) => CPInfoView::Class { name_index: c.name_index },
            CPInfoRep::Fieldref(c) => CPInfoView::Fieldref {
                class_index: c.class_index,
                name_and_type_index: c.name_and_type_index,
            },
            CPInfoRep::Methodref(c) => CPInfoView::Methodref {
                class_index: c.class_index,
                name_and_type_index: c.name_and_type_index,
            },
            CPInfoRep::InterfaceMethodref(c) => CPInfoView::InterfaceMethodref {
                class_index: c.class_index,
                name_and_type_index: c.name_and_type_index,
            },
            CPInfoRep::String(c) => CPInfoView::String { string_index: c.string_index },
            CPInfoRep::Integer(c) => CPInfoView::Integer { bits: c.0 },
            CPInfoRep::Float(c) => CPInfoView::Float { bits: c.0 },
            CPInfoRep::Long(c) => CPInfoView::Long { high: c.0, low: c.1 },
            CPInfoRep::Double(c) => CPInfoView::Double { high: c.0, low: c.1 },
            CPInfoRep::NameAndType(c) => CPInfoView::NameAndType {
                name_index: c.name_index,
                descriptor_index: c.descriptor_index,
            },
            CPInfoRep::Utf8(c) => CPInfoView::Utf8 { chars: c.0@ },
            CPInfoRep::MethodHandle(c) => CPInfoView::MethodHandle {
                reference_kind: c.reference_kind,
                reference_index: c.reference_index,
            },
            CPInfoRep::MethodType(c) => CPInfoView::MethodType {
                descriptor_index: c.descriptor_index,
            },
            CPInfoRep::InvokeDynamic(c) => CPInfoView::InvokeDynamic {
                bootstrap_method_attr_index: c.bootstrap_method_attr_index,
                name_and_type_index: c.name_and_type_index,
            },
        }
    }
}

/// What a pool lookup at `i` yields: the record there, or the error that
/// names why the index is unusable.
pub open spec fn spec_get(pool: Seq<Option<CPInfoView>>, i: int) -> Result<CPInfoView, Error>
    recommends
        0 <= i,
        pool.len() <= 0xFFFF,
{
    if i >= pool.len() {
        Err(Error::Index(i as usize))
    } else {
        match pool[i] {
            Some(v) => Ok(v),
            None => Err(Error::EmptyCPInfo(i as u16)),
        }
    }
}

/// The text of a record that has to be a Utf8 constant.
pub open spec fn spec_as_str(v: CPInfoView) -> Result<Seq<char>, Error> {
    match v {
        CPInfoView::Utf8 { chars } => Ok(chars),
        _ => Err(Error::NotUtf8),
    }
}

impl CPInfoRep {
    /// Reads one whole record: the tag byte, then the body the tag selects.
    pub fn new(slice: &mut PoSlice) -> (r: Result<Self, Error>)
        requires
            old(slice).wf(),
        ensures
            final(slice).wf(),
            final(slice).bytes_view() == old(slice).bytes_view(),
            ({
                let (r0, p0) = spec_cp_info(old(slice).bytes_view(), old(slice).spec_pos());
                &&& final(slice).spec_pos() == p0
                &&& match r0 {
                    Ok(v) => r is Ok && r->Ok_0@ == v,
                    Err(e) => r == Err::<CPInfoRep, Error>(e),
                }
            }),
    {
        let tag = slice.read_u1()?;
        Ok(
            match Tag::new(tag)? {
                Tag::CLASS => CPInfoRep::Class(ConstantClass::read(slice)?),
                Tag::FIELD_REF => CPInfoRep::Fieldref(ConstantFieldref::read(slice)?),
                Tag::METHOD_REF => CPInfoRep::Methodref(ConstantMethodref::read(slice)?),
                Tag::INTERFACE_METHOD_REF => CPInfoRep::InterfaceMethodref(
                    ConstantInterfaceMethodref::read(slice)?,
                ),
                Tag::STRING => CPInfoRep::String(ConstantString::read(slice)?),
                Tag::INTEGER => CPInfoRep::Integer(ConstantInteger::read(slice)?),
                Tag::FLOAT => CPInfoRep::Float(ConstantFloat::read(slice)?),
                Tag::LONG => CPInfoRep::Long(ConstantLong::read(slice)?),
                Tag::DOUBLE => CPInfoRep::Double(ConstantDouble::read(slice)?),
                Tag::NAME_AND_TYPE => CPInfoRep::NameAndType(ConstantNameAndType::read(slice)?),
                Tag::UTF8 => CPInfoRep::Utf8(ConstantUtf8::read(slice)?),
                Tag::METHOD_HANDLE => CPInfoRep::MethodHandle(ConstantMethodHandle::read(slice)?),
                Tag::METHOD_TYPE => CPInfoRep::MethodType(ConstantMethodType::read(slice)?),
                Tag::INVOKE_DYNAMIC => CPInfoRep::InvokeDynamic(
                    ConstantInvokeDynamic::read(slice)?,
                ),
            },
        )
    }

    /// The tag of this record.
    pub fn tag(&self) -> (r: Tag)
        ensures
            r == tag_of_view(self@),
    {
        match self {
            CPInfoRep::Class(_) => Tag::CLASS,
            CPInfoRep::Fieldref(_) => Tag::FIELD_REF,
            CPInfoRep::Methodref(_) => Tag::METHOD_REF,
            CPInfoRep::InterfaceMethodref(_) => Tag::INTERFACE_METHOD_REF,
            CPInfoRep::String(_) => Tag::STRING,
            CPInfoRep::Integer(_) => Tag::INTEGER,
            CPInfoRep::Float(_) => Tag::FLOAT,
            CPInfoRep::Long(_) => Tag::LONG,
            CPInfoRep::Double(_) => Tag::DOUBLE,
            CPInfoRep::NameAndType(_) => Tag::NAME_AND_TYPE,
            CPInfoRep::Utf8(_) => Tag::UTF8,
            CPInfoRep::MethodHandle(_) => Tag::METHOD_HANDLE,
            CPInfoRep::MethodType(_) => Tag::METHOD_TYPE,
            CPInfoRep::InvokeDynamic(_) => Tag::INVOKE_DYNAMIC,
        }
    }

    /// The text of this record, which has to be a Utf8 constant.
    pub fn as_str(&self) -> (r: Result<&str, Error>)
        ensures
            match spec_as_str(self@) {
                Ok(cs) => r is Ok && r->Ok_0@ == cs,
                Err(e) => r is Err && r->Err_0 == e,
            },
    {
        match self {
            CPInfoRep::Utf8(utf8) => Ok(utf8.0.as_str()),
            _ => Err(Error::NotUtf8),
        }
    }
}

/// The pool as a sequence of slots; an absent slot is index 0 or the dead
/// second slot of an 8-byte constant.
pub open spec fn pool_view(entries: Seq<Option<CPInfoRep>>) -> Seq<Option<CPInfoView>> {
    entries.map_values(
        |o: Option<CPInfoRep>|
            match o {
                Some(e) => Some(e@),
                None => None::<CPInfoView>,
            },
    )
}

/// Outcome of filling `n` pool slots starting at `pos`. `jump` is the
/// two-state toggle of the double-slot quirk: when it is set, the current
/// slot is left absent because the previous slot held an 8-byte constant.
pub open spec fn spec_pool_slots(b: Seq<u8>, pos: int, n: nat, jump: bool) -> (
    Result<Seq<Option<CPInfoView>>, Error>,
    int,
)
    decreases n,
{
    if n == 0 {
        (Ok(Seq::<Option<CPInfoView>>::empty()), pos)
    } else if jump {
        let (r, p) = spec_pool_slots(b, pos, (n - 1) as nat, false);
        (
            match r {
                Ok(s) => Ok(seq![None::<CPInfoView>] + s),
                Err(e) => Err(e),
            },
            p,
        )
    } else {
        let (r0, p0) = spec_cp_info(b, pos);
        match r0 {
            Err(e) => (Err(e), p0),
            Ok(entry) => {
                let (r, p) = spec_pool_slots(b, p0, (n - 1) as nat, is_wide(entry));
                (
                    match r {
                        Ok(s) => Ok(seq![Some(entry)] + s),
                        Err(e) => Err(e),
                    },
                    p,
                )
            },
        }
    }
}

/// Outcome of reading a whole constant pool: a 16-bit count, then that many
/// slots, the first of which (slot 0) is always absent.
pub open spec fn spec_pool(b: Seq<u8>, pos: int) -> (Result<Seq<Option<CPInfoView>>, Error>, int) {
    let (cr, p0) = spec_read_u2(b, pos);
    match cr {
        Err(e) => (Err(e), p0),
        Ok(count) => spec_pool_slots(b, p0, count as nat, true),
    }
}

/// Shape of a decoded run of pool slots: one slot per declared count, an
/// absent slot wherever the double-slot toggle was set on entry, and an
/// absent slot right after every 8-byte constant.
pub proof fn lemma_pool_slots_shape(b: Seq<u8>, pos: int, n: nat, jump: bool)
    ensures
        ({
            let (r, p) = spec_pool_slots(b, pos, n, jump);
            r matches Ok(s) ==> {
                &&& s.len() == n
                &&& (jump && n > 0 ==> s[0] is None)
                &&& forall|i: int|
                    0 <= i < s.len() - 1 && ((#[trigger] s[i]) matches Some(e) && is_wide(e))
                        ==> s[i + 1] is None
            }
        }),
    decreases n,
{
    if n > 0 {
        if jump {
            lemma_pool_slots_shape(b, pos, (n - 1) as nat, false);
            let (r1, p1) = spec_pool_slots(b, pos, (n - 1) as nat, false);
            if r1 is Ok {
                let s1 = r1->Ok_0;
                let s = seq![None::<CPInfoView>] + s1;
                assert forall|i: int|
                    0 <= i < s.len() - 1 && ((#[trigger] s[i]) matches Some(e) && is_wide(e))
                        implies s[i + 1] is None by {
                    if i >= 1 {
                        assert(s[i] == s1[i - 1]);
                        assert(s[i + 1] == s1[i]);
                    }
                }
            }
        } else {
            let (r0, p0) = spec_cp_info(b, pos);
            if r0 is Ok {
                let e = r0->Ok_0;
                lemma_pool_slots_shape(b, p0, (n - 1) as nat, is_wide(e));
                let (r1, p1) = spec_pool_slots(b, p0, (n - 1) as nat, is_wide(e));
                if r1 is Ok {
                    let s1 = r1->Ok_0;
                    let s = seq![Some(e)] + s1;
                    assert forall|i: int|
                        0 <= i < s.len() - 1 && ((#[trigger] s[i]) matches Some(e2) && is_wide(
                            e2,
                        )) implies s[i + 1] is None by {
                        if i == 0 {
                            assert(s[1] == s1[0]);
                        } else {
                            assert(s[i] == s1[i - 1]);
                            assert(s[i + 1] == s1[i]);
                        }
                    }
                }
            }
        }
    }
}

/// An 8-byte constant (Long or Double) occupies two slots: the slot after
/// it is always absent, and resolving that slot fails with the empty-slot
/// error, never with a record.
pub proof fn lemma_wide_constant_dead_slot(b: Seq<u8>, pos: int, i: int)
    requires
        ({
            let (r, p) = spec_pool(b, pos);
            &&& r is Ok
            &&& 0 <= i
            &&& i + 1 < r->Ok_0.len()
            &&& r->Ok_0[i] matches Some(e) && is_wide(e)
        }),
    ensures
        ({
            let s = spec_pool(b, pos).0->Ok_0;
            &&& s[i + 1] is None
            &&& spec_get(s, i + 1) == Err::<CPInfoView, Error>(Error::EmptyCPInfo((i + 1) as u16))
        }),
{
    let (rc, p0) = spec_read_u2(b, pos);
    lemma_pool_slots_shape(b, p0, rc->Ok_0 as nat, true);
}

/// Index 0 always names the permanently absent slot, and an index at or
/// beyond the declared count is out of range: neither lookup ever yields a
/// record, and each fails with its own error kind.
pub proof fn lemma_pool_get_invalid(b: Seq<u8>, pos: int, idx: int)
    requires
        spec_pool(b, pos).0 is Ok,
        0 <= idx <= usize::MAX,
    ensures
        ({
            let s = spec_pool(b, pos).0->Ok_0;
            &&& (idx == 0 && s.len() > 0 ==> spec_get(s, 0) == Err::<CPInfoView, Error>(
                Error::EmptyCPInfo(0),
            ))
            &&& (idx >= s.len() ==> spec_get(s, idx) == Err::<CPInfoView, Error>(
                Error::Index(idx as usize),
            ))
        }),
{
    let (rc, p0) = spec_read_u2(b, pos);
    lemma_pool_slots_shape(b, p0, rc->Ok_0 as nat, true);
}

/// The constant pool: one slot per declared index, queried 1-based, built
/// once and immutable afterwards.
pub struct ConstantPoolRep(Vec<Option<CPInfoRep>>);

impl View for ConstantPoolRep {
    type V = Seq<Option<CPInfoView>>;

    closed spec fn view(&self) -> Seq<Option<CPInfoView>> {
        pool_view(self.0@)
    }
}

impl ConstantPoolRep {
    /// The slot count fits the 16-bit count field it was read from.
    pub open spec fn wf(&self) -> bool {
        self@.len() <= 0xFFFF
    }

    /// Reads the pool: the count, then the records, marking absent the slot
    /// after each Long or Double record.
    pub fn read(slice: &mut PoSlice) -> (r: Result<Self, Error>)
        requires
            old(slice).wf(),
        ensures
            final(slice).wf(),
            final(slice).bytes_view() == old(slice).bytes_view(),
            ({
                let (r0, p0) = spec_pool(old(slice).bytes_view(), old(slice).spec_pos());
                &&& final(slice).spec_pos() == p0
                &&& match r0 {
                    Ok(s) => r is Ok && r->Ok_0@ == s && r->Ok_0.wf(),
                    Err(e) => r == Err::<ConstantPoolRep, Error>(e),
                }
            }),
    {
        let ghost b = old(slice).bytes_view();
        let cp_count_raw = slice.read_u2()?;
        let cp_count = cp_count_raw as usize;
        let ghost total = spec_pool_slots(b, slice.spec_pos(), cp_count as nat, true);
        let mut constant_pool: Vec<Option<CPInfoRep>> = Vec::new();
        let mut jump = true;
        while constant_pool.len() < cp_count
            invariant
                slice.wf(),
                slice.bytes_view() == b,
                cp_count <= 0xFFFF,
                constant_pool.len() <= cp_count,
                ({
                    let (rr, rp) = spec_pool_slots(
                        b,
                        slice.spec_pos(),
                        (cp_count - constant_pool.len()) as nat,
                        jump,
                    );
                    &&& total.1 == rp
                    &&& total.0 == match rr {
                        Ok(s) => Ok::<Seq<Option<CPInfoView>>, Error>(
                            pool_view(constant_pool@) + s,
                        ),
                        Err(e) => Err::<Seq<Option<CPInfoView>>, Error>(e),
                    }
                }),
            decreases cp_count - constant_pool.len(),
        {
            let ghost prefix = pool_view(constant_pool@);
            if jump {
                constant_pool.push(None);
                jump = false;
                proof {
                    let (rr, rp) = spec_pool_slots(
                        b,
                        slice.spec_pos(),
                        (cp_count - constant_pool.len()) as nat,
                        false,
                    );
                    if rr is Ok {
                        assert(pool_view(constant_pool@) + rr->Ok_0 =~= prefix + (seq![
                            None::<CPInfoView>,
                        ] + rr->Ok_0));
                    }
                }
            } else {
                match CPInfoRep::new(slice) {
                    Ok(cp_info) => {
                        jump = match cp_info {
                            CPInfoRep::Long(_) => true,
                            CPInfoRep::Double(_) => true,
                            _ => false,
                        };
                        constant_pool.push(Some(cp_info));
                        proof {
                            let (rr, rp) = spec_pool_slots(
                                b,
                                slice.spec_pos(),
                                (cp_count - constant_pool.len()) as nat,
                                jump,
                            );
                            if rr is Ok {
                                let entry = constant_pool@.last()->Some_0@;
                                assert(pool_view(constant_pool@) + rr->Ok_0 =~= prefix + (seq![
                                    Some(entry),
                                ] + rr->Ok_0));
                            }
                        }
                    },
                    Err(e) => {
                        return Err(e);
                    },
                }
            }
        }
        proof {
            assert(pool_view(constant_pool@) + Seq::<Option<CPInfoView>>::empty() =~= pool_view(
                constant_pool@,
            ));
        }
        Ok(ConstantPoolRep(constant_pool))
    }

    /// Looks a slot up by index: out-of-range indices and absent slots each
    /// fail with their own error kind; a present record is handed back by
    /// reference.
    pub fn get(&self, index: usize) -> (r: Result<&CPInfoRep, Error>)
        requires
            self.wf(),
        ensures
            match spec_get(self@, index as int) {
                Ok(v) => r is Ok && r->Ok_0@ == v,
                Err(e) => r is Err && r->Err_0 == e,
            },
    {
        if index < self.0.len() {
            match &self.0[index] {
                Some(cp_info) => Ok(cp_info),
                None => Err(Error::EmptyCPInfo(index as u16)),
            }
        } else {
            Err(Error::Index(index))
        }
    }
}

} // verus!
