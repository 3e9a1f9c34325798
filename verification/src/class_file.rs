//! The top-level aggregate: header fields, the constant pool, the member
//! lists and the class attributes, decoded in the format's fixed order, with
//! the name-resolution and entry-point queries built on the pool.

use std::rc::Rc;
use vstd::prelude::*;

use crate::attribute_info::AttributeInfo;
use crate::attribute_info::AttributeView;
use crate::attribute_info::CodeAttribute;
use crate::attribute_info::attr_view;
use crate::attribute_info::attrs_view;
use crate::attribute_info::spec_attributes;
use crate::constant_pool::CPInfoRep;
use crate::constant_pool::CPInfoView;
use crate::constant_pool::ConstantPoolRep;
use crate::constant_pool::spec_as_str;
use crate::constant_pool::spec_get;
use crate::constant_pool::spec_pool;
use crate::constant_pool::tag_of_view;
use crate::error::Error;
use crate::pos_slice::PoSlice;
use crate::pos_slice::spec_read_u2;
use crate::pos_slice::spec_read_u4;
use crate::text::str_eq;

verus! {

/// The mathematical content of one member (field or method).
pub struct MemberView {
    pub pool: Seq<Option<CPInfoView>>,
    pub access_flags: u16,
    pub name_index: u16,
    pub descriptor_index: u16,
    pub attributes: Seq<AttributeView>,
}

/// The mathematical content of a whole decoded class file.
pub struct ClassFileView {
    pub magic: u32,
    pub minor_version: u16,
    pub major_version: u16,
    pub pool: Seq<Option<CPInfoView>>,
    pub access_flags: u16,
    pub this_class: u16,
    pub super_class: u16,
    pub interfaces: Seq<u16>,
    pub fields: Seq<MemberView>,
    pub methods: Seq<MemberView>,
    pub attributes: Seq<AttributeView>,
}

/// Outcome of reading one member: three 16-bit fields, then its attribute
/// list.
pub open spec fn spec_member(b: Seq<u8>, pool: Seq<Option<CPInfoView>>, pos: int) -> (
    Result<MemberView, Error>,
    int,
) {
    let (r1, p1) = spec_read_u2(b, pos);
    match r1 {
        Err(e) => (Err(e), p1),
        Ok(access_flags) => {
            let (r2, p2) = spec_read_u2(b, p1);
            match r2 {
                Err(e) => (Err(e), p2),
                Ok(name_index) => {
                    let (r3, p3) = spec_read_u2(b, p2);
                    match r3 {
                        Err(e) => (Err(e), p3),
                        Ok(descriptor_index) => {
                            let (ra, p4) = spec_attributes(b, pool, p3);
                            match ra {
                                Err(e) => (Err(e), p4),
                                Ok(attributes) => (
                                    Ok(
                                        MemberView {
                                            pool,
                                            access_flags,
                                            name_index,
                                            descriptor_index,
                                            attributes,
                                        },
                                    ),
                                    p4,
                                ),
                            }
                        },
                    }
                },
            }
        },
    }
}

/// Outcome of reading `n` members in sequence.
pub open spec fn spec_member_list(b: Seq<u8>, pool: Seq<Option<CPInfoView>>, pos: int, n: nat) -> (
    Result<Seq<MemberView>, Error>,
    int,
)
    decreases n,
{
    if n == 0 {
        (Ok(Seq::<MemberView>::empty()), pos)
    } else {
        let (r0, p0) = spec_member(b, pool, pos);
        match r0 {
            Err(e) => (Err(e), p0),
            Ok(m) => {
                let (r, p) = spec_member_list(b, pool, p0, (n - 1) as nat);
                (
                    match r {
                        Ok(s) => Ok(seq![m] + s),
                        Err(e) => Err(e),
                    },
                    p,
                )
            },
        }
    }
}

/// Every member of a decoded list carries the pool it was decoded against.
pub proof fn lemma_member_list_pools(b: Seq<u8>, pool: Seq<Option<CPInfoView>>, pos: int, n: nat)
    ensures
        ({
            let (r, p) = spec_member_list(b, pool, pos, n);
            r matches Ok(s) ==> forall|i: int| 0 <= i < s.len() ==> (#[trigger] s[i]).pool == pool
        }),
    decreases n,
{
    if n > 0 {
        let (r0, p0) = spec_member(b, pool, pos);
        if r0 is Ok {
            lemma_member_list_pools(b, pool, p0, (n - 1) as nat);
        }
    }
}

/// Outcome of reading a member list: a 16-bit count, then that many members.
pub open spec fn spec_members(b: Seq<u8>, pool: Seq<Option<CPInfoView>>, pos: int) -> (
    Result<Seq<MemberView>, Error>,
    int,
) {
    let (rc, p0) = spec_read_u2(b, pos);
    match rc {
        Err(e) => (Err(e), p0),
        Ok(count) => spec_member_list(b, pool, p0, count as nat),
    }
}

/// Outcome of reading `n` 16-bit pool indices in sequence.
pub open spec fn spec_u2_list(b: Seq<u8>, pos: int, n: nat) -> (Result<Seq<u16>, Error>, int)
    decreases n,
{
    if n == 0 {
        (Ok(Seq::<u16>::empty()), pos)
    } else {
        let (r0, p0) = spec_read_u2(b, pos);
        match r0 {
            Err(e) => (Err(e), p0),
            Ok(x) => {
                let (r, p) = spec_u2_list(b, p0, (n - 1) as nat);
                (
                    match r {
                        Ok(s) => Ok(seq![x] + s),
                        Err(e) => Err(e),
                    },
                    p,
                )
            },
        }
    }
}

/// Outcome of reading the interface list: a 16-bit count, then that many
/// pool indices.
pub open spec fn spec_interfaces(b: Seq<u8>, pos: int) -> (Result<Seq<u16>, Error>, int) {
    let (rc, p0) = spec_read_u2(b, pos);
    match rc {
        Err(e) => (Err(e), p0),
        Ok(count) => spec_u2_list(b, p0, count as nat),
    }
}

/// Outcome of reading the fixed header: the magic number and the two
/// version fields.
pub open spec fn spec_class_header(b: Seq<u8>, pos: int) -> (Result<(u32, u16, u16), Error>, int) {
    let (rm, p1) = spec_read_u4(b, pos);
    match rm {
        Err(e) => (Err(e), p1),
        Ok(magic) => {
            let (rmin, p2) = spec_read_u2(b, p1);
            match rmin {
                Err(e) => (Err(e), p2),
                Ok(minor_version) => {
                    let (rmaj, p3) = spec_read_u2(b, p2);
                    match rmaj {
                        Err(e) => (Err(e), p3),
                        Ok(major_version) => (Ok((magic, minor_version, major_version)), p3),
                    }
                },
            }
        },
    }
}

/// Outcome of reading three consecutive big-endian 16-bit values.
pub open spec fn spec_read_u2_triple(b: Seq<u8>, pos: int) -> (
    Result<(u16, u16, u16), Error>,
    int,
) {
    let (r1, p1) = spec_read_u2(b, pos);
    match r1 {
        Err(e) => (Err(e), p1),
        Ok(a) => {
            let (r2, p2) = spec_read_u2(b, p1);
            match r2 {
                Err(e) => (Err(e), p2),
                Ok(c) => {
                    let (r3, p3) = spec_read_u2(b, p2);
                    match r3 {
                        Err(e) => (Err(e), p3),
                        Ok(d) => (Ok((a, c, d)), p3),
                    }
                },
            }
        },
    }
}

/// Outcome of decoding a whole class file, section by section in the fixed
/// order of the format: magic and versions, constant pool, access flags
/// with this and super class, interfaces, fields, methods, attributes.
pub open spec fn spec_class_file(b: Seq<u8>, pos: int) -> (Result<ClassFileView, Error>, int) {
    let (rh, p1) = spec_class_header(b, pos);
    match rh {
        Err(e) => (Err(e), p1),
        Ok(h) => {
            let (rp, p2) = spec_pool(b, p1);
            match rp {
                Err(e) => (Err(e), p2),
                Ok(pool) => {
                    let (rt, p3) = spec_read_u2_triple(b, p2);
                    match rt {
                        Err(e) => (Err(e), p3),
                        Ok(t) => {
                            let (ri, p4) = spec_interfaces(b, p3);
                            match ri {
                                Err(e) => (Err(e), p4),
                                Ok(interfaces) => {
                                    let (rf, p5) = spec_members(b, pool, p4);
                                    match rf {
                                        Err(e) => (Err(e), p5),
                                        Ok(fields) => {
                                            let (rme, p6) = spec_members(b, pool, p5);
                                            match rme {
                                                Err(e) => (Err(e), p6),
                                                Ok(methods) => {
                                                    let (ra, p7) = spec_attributes(b, pool, p6);
                                                    (
                                                        match ra {
                                                            Err(e) => Err(e),
                                                            Ok(attributes) => Ok(
                                                                ClassFileView {
                                                                    magic: h.0,
                                                                    minor_version: h.1,
                                                                    major_version: h.2,
                                                                    pool,
                                                                    access_flags: t.0,
                                                                    this_class: t.1,
                                                                    super_class: t.2,
                                                                    interfaces,
                                                                    fields,
                                                                    methods,
                                                                    attributes,
                                                                },
                                                            ),
                                                        },
                                                        p7,
                                                    )
                                                },
                                            }
                                        },
                                    }
                                },
                            }
                        },
                    }
                },
            }
        },
    }
}

/// A buffer that is exactly one well-formed class file: the decode succeeds
/// and consumes every byte.
pub open spec fn valid_class_file(b: Seq<u8>) -> bool {
    spec_class_file(b, 0).0 is Ok && spec_class_file(b, 0).1 == b.len()
}

/// On a buffer that is exactly one well-formed class file, the decode from
/// position 0 succeeds and its final position is the buffer's total length:
/// no trailing bytes are left unread and no read passes the end.
pub proof fn lemma_valid_class_file_consumes_all(b: Seq<u8>)
    requires
        valid_class_file(b),
    ensures
        spec_class_file(b, 0).0 is Ok,
        spec_class_file(b, 0).1 == b.len(),
{
}

/// The text of the record at `i`, which has to be a Utf8 constant.
pub open spec fn spec_get_str(pool: Seq<Option<CPInfoView>>, i: int) -> Result<Seq<char>, Error> {
    match spec_get(pool, i) {
        Err(e) => Err(e),
        Ok(v) => spec_as_str(v),
    }
}

/// The class name that `idx` resolves to: a Class record whose `name_index`
/// resolves to a Utf8 record; any other tag on the way is a mismatch.
pub open spec fn spec_class_name(pool: Seq<Option<CPInfoView>>, idx: int) -> Result<
    Seq<char>,
    Error,
> {
    match spec_get(pool, idx) {
        Err(e) => Err(e),
        Ok(v) => match v {
            CPInfoView::Class { name_index } => match spec_get(pool, name_index as int) {
                Err(e) => Err(e),
                Ok(u) => match u {
                    CPInfoView::Utf8 { chars } => Ok(chars),
                    other => Err(Error::WrongTag(tag_of_view(other))),
                },
            },
            other => Err(Error::WrongTag(tag_of_view(other))),
        },
    }
}

/// The entry-point name.
pub open spec fn main_name() -> Seq<char> {
    "main"@
}

/// The entry-point descriptor: one `String` array parameter, `void` result.
pub open spec fn main_descriptor() -> Seq<char> {
    "([Ljava/lang/String;)V"@
}

/// The index of the first method at or after `i` whose name is the
/// entry-point name and whose descriptor is the entry-point descriptor. A
/// broken name link fails the scan; the descriptor is only resolved once
/// the name has matched.
pub open spec fn spec_find_main(methods: Seq<MemberView>, i: int) -> Result<int, Error>
    decreases methods.len() - i,
{
    if i < 0 || i >= methods.len() {
        Err(Error::MainNotFound)
    } else {
        match spec_get_str(methods[i].pool, methods[i].name_index as int) {
            Err(e) => Err(e),
            Ok(n) => {
                if n != main_name() {
                    spec_find_main(methods, i + 1)
                } else {
                    match spec_get_str(methods[i].pool, methods[i].descriptor_index as int) {
                        Err(e) => Err(e),
                        Ok(d) => {
                            if d == main_descriptor() {
                                Ok(i)
                            } else {
                                spec_find_main(methods, i + 1)
                            }
                        },
                    }
                }
            },
        }
    }
}

/// The first Code attribute in a list, if any.
pub open spec fn spec_first_code(s: Seq<AttributeView>) -> Option<AttributeView>
    decreases s.len(),
{
    if s.len() == 0 {
        None
    } else if s[0] is Code {
        Some(s[0])
    } else {
        spec_first_code(s.drop_first())
    }
}

/// One member: a field or a method. Both share the same shape on disk; the
/// name and descriptor stay as pool indices and are resolved on demand.
pub struct MemberInfo {
    pub constant_pool: Rc<ConstantPoolRep>,
    pub access_flags: u16,
    pub name_index: u16,
    pub descriptor_index: u16,
    pub attributes: Vec<AttributeInfo>,
}

impl View for MemberInfo {
    type V = MemberView;

    open spec fn view(&self) -> MemberView {
        MemberView {
            pool: self.constant_pool@,
            access_flags: self.access_flags,
            name_index: self.name_index,
            descriptor_index: self.descriptor_index,
            attributes: attrs_view(self.attributes),
        }
    }
}

/// The contents of a list of decoded members.
pub open spec fn members_view(v: Vec<MemberInfo>) -> Seq<MemberView> {
    Seq::new(v@.len(), |i: int| v@[i]@)
}

impl MemberInfo {
    /// The member's pool handle fits the 16-bit count it was declared with.
    pub open spec fn wf(&self) -> bool {
        self.constant_pool@.len() <= 0xFFFF
    }

    /// Reads one member: access flags, name index, descriptor index, then
    /// its attribute list.
    pub fn new(slice: &mut PoSlice, constant_pool: Rc<ConstantPoolRep>) -> (r: Result<Self, Error>)
        requires
            old(slice).wf(),
            constant_pool@.len() <= 0xFFFF,
        ensures
            final(slice).wf(),
            final(slice).bytes_view() == old(slice).bytes_view(),
            ({
                let (r0, p0) = spec_member(
                    old(slice).bytes_view(),
                    constant_pool@,
                    old(slice).spec_pos(),
                );
                &&& final(slice).spec_pos() == p0
                &&& match r0 {
                    Ok(v) => r is Ok && r->Ok_0@ == v && r->Ok_0.wf(),
                    Err(e) => r == Err::<MemberInfo, Error>(e),
                }
            }),
    {
        let access_flags = slice.read_u2()?;
        let name_index = slice.read_u2()?;
        let descriptor_index = slice.read_u2()?;
        let attributes = AttributeInfo::read_attributes(slice, constant_pool.clone())?;
        Ok(MemberInfo { constant_pool, access_flags, name_index, descriptor_index, attributes })
    }

    /// Reads a member list: a 16-bit count, then that many members.
    pub fn read_members(slice: &mut PoSlice, constant_pool: Rc<ConstantPoolRep>) -> (r: Result<
        Vec<MemberInfo>,
        Error,
    >)
        requires
            old(slice).wf(),
            constant_pool@.len() <= 0xFFFF,
        ensures
            final(slice).wf(),
            final(slice).bytes_view() == old(slice).bytes_view(),
            ({
                let (r0, p0) = spec_members(
                    old(slice).bytes_view(),
                    constant_pool@,
                    old(slice).spec_pos(),
                );
                &&& final(slice).spec_pos() == p0
                &&& match r0 {
                    Ok(s) => r is Ok && members_view(r->Ok_0) == s && (forall|i: int|
                        0 <= i < r->Ok_0@.len() ==> (#[trigger] r->Ok_0@[i]).wf()),
                    Err(e) => r == Err::<Vec<MemberInfo>, Error>(e),
                }
            }),
    {
        let ghost b = old(slice).bytes_view();
        let count_raw = slice.read_u2()?;
        let count = count_raw as usize;
        let ghost total = spec_member_list(b, constant_pool@, slice.spec_pos(), count as nat);
        let mut members: Vec<MemberInfo> = Vec::new();
        while members.len() < count
            invariant
                slice.wf(),
                slice.bytes_view() == b,
                members.len() <= count,
                forall|i: int| 0 <= i < members@.len() ==> (#[trigger] members@[i]).wf(),
                ({
                    let (rr, rp) = spec_member_list(
                        b,
                        constant_pool@,
                        slice.spec_pos(),
                        (count - members.len()) as nat,
                    );
                    &&& total.1 == rp
                    &&& total.0 == match rr {
                        Ok(s) => Ok::<Seq<MemberView>, Error>(members_view(members) + s),
                        Err(e) => Err::<Seq<MemberView>, Error>(e),
                    }
                }),
            decreases count - members.len(),
        {
            let ghost prefix = members_view(members);
            match MemberInfo::new(slice, constant_pool.clone()) {
                Ok(member_info) => {
                    members.push(member_info);
                    proof {
                        let (rr, rp) = spec_member_list(
                            b,
                            constant_pool@,
                            slice.spec_pos(),
                            (count - members.len()) as nat,
                        );
                        if rr is Ok {
                            let v = members@.last()@;
                            assert(members_view(members) =~= prefix.push(v));
                            assert(members_view(members) + rr->Ok_0 =~= prefix + (seq![v]
                                + rr->Ok_0));
                        }
                    }
                },
                Err(e) => {
                    return Err(e);
                },
            }
        }
        proof {
            assert(members_view(members) + Seq::<MemberView>::empty() =~= members_view(members));
        }
        Ok(members)
    }

    /// The member's access flags.
    pub fn access_flags(&self) -> (r: u16)
        ensures
            r == self@.access_flags,
    {
        self.access_flags
    }

    /// Resolves the member's name through the pool.
    pub fn get_name(&self) -> (r: Result<&str, Error>)
        requires
            self.wf(),
        ensures
            match spec_get_str(self@.pool, self@.name_index as int) {
                Ok(cs) => r is Ok && r->Ok_0@ == cs,
                Err(e) => r is Err && r->Err_0 == e,
            },
    {
        self.get_str(self.name_index as usize)
    }

    /// Resolves the member's descriptor through the pool.
    pub fn get_descriptor(&self) -> (r: Result<&str, Error>)
        requires
            self.wf(),
        ensures
            match spec_get_str(self@.pool, self@.descriptor_index as int) {
                Ok(cs) => r is Ok && r->Ok_0@ == cs,
                Err(e) => r is Err && r->Err_0 == e,
            },
    {
        self.get_str(self.descriptor_index as usize)
    }

    /// The first Code attribute of this member, if it has one.
    pub fn get_code_attribute(&self) -> (r: Option<&CodeAttribute>)
        ensures
            match spec_first_code(self@.attributes) {
                Some(v) => r is Some && attr_view(AttributeInfo::Code(*r->Some_0)) == v,
                None => r is None,
            },
    {
        let ghost all = self@.attributes;
        proof {
            assert(all.skip(0) =~= all);
        }
        let mut i: usize = 0;
        while i < self.attributes.len()
            invariant
                i <= self.attributes.len(),
                spec_first_code(all.skip(i as int)) == spec_first_code(all),
            decreases self.attributes.len() - i,
        {
            proof {
                assert(all.skip(i as int).drop_first() =~= all.skip(i as int + 1));
                assert(all.skip(i as int)[0] == all[i as int]);
            }
            match &self.attributes[i] {
                AttributeInfo::Code(code_info) => {
                    return Some(code_info);
                },
                _ => {},
            }
            i = i + 1;
        }
        proof {
            assert(all.skip(i as int) =~= Seq::<AttributeView>::empty());
        }
        None
    }

    /// Resolves a pool index to the text of a Utf8 record.
    fn get_str(&self, index: usize) -> (r: Result<&str, Error>)
        requires
            self.wf(),
        ensures
            match spec_get_str(self@.pool, index as int) {
                Ok(cs) => r is Ok && r->Ok_0@ == cs,
                Err(e) => r is Err && r->Err_0 == e,
            },
    {
        self.constant_pool.get(index)?.as_str()
    }
}

/// A decoded class file. The pool is built first and then shared, read
/// only, with every member and attribute.
pub struct ClassFile {
    pub magic: u32,
    pub minor_version: u16,
    pub major_version: u16,
    pub constant_pool: Rc<ConstantPoolRep>,
    pub access_flags: u16,
    pub this_class: u16,
    pub super_class: u16,
    pub interfaces: Vec<u16>,
    pub fields: Vec<MemberInfo>,
    pub methods: Vec<MemberInfo>,
    pub attributes: Vec<AttributeInfo>,
}

impl View for ClassFile {
    type V = ClassFileView;

    open spec fn view(&self) -> ClassFileView {
        ClassFileView {
            magic: self.magic,
            minor_version: self.minor_version,
            major_version: self.major_version,
            pool: self.constant_pool@,
            access_flags: self.access_flags,
            this_class: self.this_class,
            super_class: self.super_class,
            interfaces: self.interfaces@,
            fields: members_view(self.fields),
            methods: members_view(self.methods),
            attributes: attrs_view(self.attributes),
        }
    }
}

/// Reads the interface list: a 16-bit count, then that many pool indices.
fn read_interfaces(slice: &mut PoSlice) -> (r: Result<Vec<u16>, Error>)
    requires
        old(slice).wf(),
    ensures
        final(slice).wf(),
        final(slice).bytes_view() == old(slice).bytes_view(),
        ({
            let (r0, p0) = spec_interfaces(old(slice).bytes_view(), old(slice).spec_pos());
            &&& final(slice).spec_pos() == p0
            &&& match r0 {
                Ok(s) => r is Ok && r->Ok_0@ == s,
                Err(e) => r == Err::<Vec<u16>, Error>(e),
            }
        }),
{
    let ghost b = old(slice).bytes_view();
    let count_raw = slice.read_u2()?;
    let count = count_raw as usize;
    let ghost total = spec_u2_list(b, slice.spec_pos(), count as nat);
    let mut indices: Vec<u16> = Vec::new();
    while indices.len() < count
        invariant
            slice.wf(),
            slice.bytes_view() == b,
            indices.len() <= count,
            ({
                let (rr, rp) = spec_u2_list(b, slice.spec_pos(), (count - indices.len()) as nat);
                &&& total.1 == rp
                &&& total.0 == match rr {
                    Ok(s) => Ok::<Seq<u16>, Error>(indices@ + s),
                    Err(e) => Err::<Seq<u16>, Error>(e),
                }
            }),
        decreases count - indices.len(),
    {
        let ghost prefix = indices@;
        match slice.read_u2() {
            Ok(x) => {
                indices.push(x);
                proof {
                    let (rr, rp) = spec_u2_list(
                        b,
                        slice.spec_pos(),
                        (count - indices.len()) as nat,
                    );
                    if rr is Ok {
                        assert(indices@ + rr->Ok_0 =~= prefix + (seq![x] + rr->Ok_0));
                    }
                }
            },
            Err(e) => {
                return Err(e);
            },
        }
    }
    proof {
        assert(indices@ + Seq::<u16>::empty() =~= indices@);
    }
    Ok(indices)
}

/// Reads the fixed header: the magic number and the two version fields.
fn read_header(slice: &mut PoSlice) -> (r: Result<(u32, u16, u16), Error>)
    requires
        old(slice).wf(),
    ensures
        final(slice).wf(),
        final(slice).bytes_view() == old(slice).bytes_view(),
        ({
            let (r0, p0) = spec_class_header(old(slice).bytes_view(), old(slice).spec_pos());
            &&& final(slice).spec_pos() == p0
            &&& r == r0
        }),
{
    let magic = slice.read_u4()?;
    let minor_version = slice.read_u2()?;
    let major_version = slice.read_u2()?;
    Ok((magic, minor_version, major_version))
}

/// Reads three consecutive 16-bit values.
fn read_u2_triple(slice: &mut PoSlice) -> (r: Result<(u16, u16, u16), Error>)
    requires
        old(slice).wf(),
    ensures
        final(slice).wf(),
        final(slice).bytes_view() == old(slice).bytes_view(),
        ({
            let (r0, p0) = spec_read_u2_triple(old(slice).bytes_view(), old(slice).spec_pos());
            &&& final(slice).spec_pos() == p0
            &&& r == r0
        }),
{
    let a = slice.read_u2()?;
    let c = slice.read_u2()?;
    let d = slice.read_u2()?;
    Ok((a, c, d))
}

impl ClassFile {
    /// The pool handle fits its declared count, and every member's pool is
    /// the class's own pool.
    pub open spec fn wf(&self) -> bool {
        &&& self.constant_pool@.len() <= 0xFFFF
        &&& forall|i: int|
            0 <= i < self.fields@.len() ==> (#[trigger] self.fields@[i]).wf()
                && self.fields@[i].constant_pool@ == self.constant_pool@
        &&& forall|i: int|
            0 <= i < self.methods@.len() ==> (#[trigger] self.methods@[i]).wf()
                && self.methods@[i].constant_pool@ == self.constant_pool@
    }

    /// Decodes a whole class file from the cursor, in the fixed order of
    /// the format. On a buffer that is exactly one well-formed class file
    /// the decode succeeds and the cursor ends at the buffer's end.
    #[verifier::rlimit(100)]
    pub fn from_bytes(slice: &mut PoSlice) -> (r: Result<ClassFile, Error>)
        requires
            old(slice).wf(),
        ensures
            final(slice).wf(),
            final(slice).bytes_view() == old(slice).bytes_view(),
            ({
                let (r0, p0) = spec_class_file(old(slice).bytes_view(), old(slice).spec_pos());
                &&& final(slice).spec_pos() == p0
                &&& match r0 {
                    Ok(v) => r is Ok && r->Ok_0@ == v && r->Ok_0.wf(),
                    Err(e) => r == Err::<ClassFile, Error>(e),
                }
            }),
    {
        let ghost b = old(slice).bytes_view();
        let header = read_header(slice)?;
        let pool = ConstantPoolRep::read(slice)?;
        let constant_pool = Rc::new(pool);
        let flags_and_classes = read_u2_triple(slice)?;
        let interfaces = read_interfaces(slice)?;
        let ghost fields_at = slice.spec_pos();
        let fields = MemberInfo::read_members(slice, constant_pool.clone())?;
        let ghost methods_at = slice.spec_pos();
        let methods = MemberInfo::read_members(slice, constant_pool.clone())?;
        let attributes = AttributeInfo::read_attributes(slice, constant_pool.clone())?;
        proof {
            let (rfc, pf0) = spec_read_u2(b, fields_at);
            lemma_member_list_pools(b, constant_pool@, pf0, rfc->Ok_0 as nat);
            let (rmc, pm0) = spec_read_u2(b, methods_at);
            lemma_member_list_pools(b, constant_pool@, pm0, rmc->Ok_0 as nat);
            let fs = spec_member_list(b, constant_pool@, pf0, rfc->Ok_0 as nat).0->Ok_0;
            assert forall|i: int|
                0 <= i < fields@.len() implies (#[trigger] fields@[i]).constant_pool@
                == constant_pool@ by {
                assert(members_view(fields)[i] == fields@[i]@);
                assert(fs[i].pool == constant_pool@);
            }
            let ms = spec_member_list(b, constant_pool@, pm0, rmc->Ok_0 as nat).0->Ok_0;
            assert forall|i: int|
                0 <= i < methods@.len() implies (#[trigger] methods@[i]).constant_pool@
                == constant_pool@ by {
                assert(members_view(methods)[i] == methods@[i]@);
                assert(ms[i].pool == constant_pool@);
            }
        }
        Ok(
            ClassFile {
                magic: header.0,
                minor_version: header.1,
                major_version: header.2,
                constant_pool,
                access_flags: flags_and_classes.0,
                this_class: flags_and_classes.1,
                super_class: flags_and_classes.2,
                interfaces,
                fields,
                methods,
                attributes,
            },
        )
    }

    /// The minor format version.
    pub fn minor_version(&self) -> (r: u16)
        ensures
            r == self@.minor_version,
    {
        self.minor_version
    }

    /// The major format version.
    pub fn major_version(&self) -> (r: u16)
        ensures
            r == self@.major_version,
    {
        self.major_version
    }

    /// Another handle on the shared constant pool.
    pub fn constant_pool(&self) -> (r: Rc<ConstantPoolRep>)
        ensures
            r@ == self@.pool,
    {
        self.constant_pool.clone()
    }

    /// The interface pool indices, in file order.
    pub fn interfaces(&self) -> (r: &[u16])
        ensures
            r@ == self@.interfaces,
    {
        self.interfaces.as_slice()
    }

    /// The fields, in file order.
    pub fn fields(&self) -> (r: &[MemberInfo])
        ensures
            r@.len() == self@.fields.len(),
            forall|i: int| 0 <= i < r@.len() ==> (#[trigger] r@[i])@ == self@.fields[i],
    {
        self.fields.as_slice()
    }

    /// The methods, in file order.
    pub fn methods(&self) -> (r: &[MemberInfo])
        ensures
            r@.len() == self@.methods.len(),
            forall|i: int| 0 <= i < r@.len() ==> (#[trigger] r@[i])@ == self@.methods[i],
    {
        self.methods.as_slice()
    }

    /// Resolves this class's own name: `this_class` must name a Class
    /// record whose name index resolves to a Utf8 record.
    pub fn name(&self) -> (r: Result<&str, Error>)
        requires
            self.wf(),
        ensures
            match spec_class_name(self@.pool, self@.this_class as int) {
                Ok(cs) => r is Ok && r->Ok_0@ == cs,
                Err(e) => r is Err && r->Err_0 == e,
            },
    {
        let class_info = match self.constant_pool.get(self.this_class as usize)? {
            CPInfoRep::Class(class_info) => *class_info,
            cp_info => {
                return Err(Error::WrongTag(cp_info.tag()));
            },
        };
        match self.constant_pool.get(class_info.name_index as usize)? {
            CPInfoRep::Utf8(utf8_info) => Ok(utf8_info.0.as_str()),
            cp_info => Err(Error::WrongTag(cp_info.tag())),
        }
    }

    /// Resolves the superclass name, the same way as [`Self::name`].
    pub fn super_name(&self) -> (r: Result<&str, Error>)
        requires
            self.wf(),
        ensures
            match spec_class_name(self@.pool, self@.super_class as int) {
                Ok(cs) => r is Ok && r->Ok_0@ == cs,
                Err(e) => r is Err && r->Err_0 == e,
            },
    {
        let class_info = match self.constant_pool.get(self.super_class as usize)? {
            CPInfoRep::Class(class_info) => *class_info,
            cp_info => {
                return Err(Error::WrongTag(cp_info.tag()));
            },
        };
        match self.constant_pool.get(class_info.name_index as usize)? {
            CPInfoRep::Utf8(utf8_info) => Ok(utf8_info.0.as_str()),
            cp_info => Err(Error::WrongTag(cp_info.tag())),
        }
    }

    /// Scans the methods for the entry point: the first whose name is
    /// `main` and whose descriptor is `([Ljava/lang/String;)V`.
    pub fn get_main_method(&self) -> (r: Result<&MemberInfo, Error>)
        requires
            self.wf(),
        ensures
            match spec_find_main(self@.methods, 0) {
                Ok(i) => r is Ok && r->Ok_0@ == self@.methods[i],
                Err(e) => r is Err && r->Err_0 == e,
            },
    {
        let ghost ms = self@.methods;
        let mut i: usize = 0;
        while i < self.methods.len()
            invariant
                i <= self.methods.len(),
                spec_find_main(ms, i as int) == spec_find_main(ms, 0),
            decreases self.methods.len() - i,
        {
            let member_info = &self.methods[i];
            let name = member_info.get_name()?;
            if str_eq(name, "main") {
                let descriptor = member_info.get_descriptor()?;
                if str_eq(descriptor, "([Ljava/lang/String;)V") {
                    return Ok(member_info);
                }
            }
            i = i + 1;
        }
        Err(Error::MainNotFound)
    }
}

} // verus!
