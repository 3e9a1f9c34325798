//! Attributes: named, length-prefixed data blocks attached to classes,
//! fields, methods, and (recursively) to the Code attribute itself. Known
//! names decode structurally; any other name decodes to an opaque span of
//! exactly the declared length.

use std::rc::Rc;
use vstd::prelude::*;

use crate::constant_pool::CPInfoView;
use crate::constant_pool::ConstantPoolRep;
use crate::constant_pool::spec_as_str;
use crate::constant_pool::spec_get;
use crate::error::Error;
use crate::pos_slice::PoSlice;
use crate::pos_slice::spec_read_slice;
use crate::pos_slice::spec_read_u2;
use crate::pos_slice::spec_read_u4;
use crate::pos_slice::u32_be;
use crate::text::str_eq;

verus! {

broadcast use vstd::std_specs::vec::axiom_vec_index_decreases;

/// One row of a Code attribute's exception table: four fixed 16-bit fields.
/// A `catch_type` of 0 means catch-all and is deliberately unresolved.
#[derive(Debug, Clone, Copy, PartialEq, Eq, Structural)]
pub struct Exception {
    pub start_pc: u16,
    pub end_pc: u16,
    pub handler_pc: u16,
    pub catch_type: u16,
}

/// Outcome of reading one exception-table row.
pub open spec fn spec_exception(b: Seq<u8>, pos: int) -> (Result<Exception, Error>, int) {
    let (r1, p1) = spec_read_u2(b, pos);
    match r1 {
        Err(e) => (Err(e), p1),
        Ok(start_pc) => {
            let (r2, p2) = spec_read_u2(b, p1);
            match r2 {
                Err(e) => (Err(e), p2),
                Ok(end_pc) => {
                    let (r3, p3) = spec_read_u2(b, p2);
                    match r3 {
                        Err(e) => (Err(e), p3),
                        Ok(handler_pc) => {
                            let (r4, p4) = spec_read_u2(b, p3);
                            match r4 {
                                Err(e) => (Err(e), p4),
                                Ok(catch_type) => (
                                    Ok(Exception { start_pc, end_pc, handler_pc, catch_type }),
                                    p4,
                                ),
                            }
                        },
                    }
                },
            }
        },
    }
}

/// Outcome of reading `n` exception-table rows in sequence.
pub open spec fn spec_exception_list(b: Seq<u8>, pos: int, n: nat) -> (
    Result<Seq<Exception>, Error>,
    int,
)
    decreases n,
{
    if n == 0 {
        (Ok(Seq::<Exception>::empty()), pos)
    } else {
        let (r0, p0) = spec_exception(b, pos);
        match r0 {
            Err(e) => (Err(e), p0),
            Ok(x) => {
                let (r, p) = spec_exception_list(b, p0, (n - 1) as nat);
                (
                    match r {
                        Ok(s) => Ok(seq![x] + s),
                        Err(e) => Err(e),
                    },
                    p,
                )
            },
        }
    }
}

/// Outcome of reading a whole exception table: a 16-bit row count, then
/// that many rows.
pub open spec fn spec_exception_table(b: Seq<u8>, pos: int) -> (Result<Seq<Exception>, Error>, int) {
    let (rc, p0) = spec_read_u2(b, pos);
    match rc {
        Err(e) => (Err(e), p0),
        Ok(count) => spec_exception_list(b, p0, count as nat),
    }
}

/// Reading rows never moves the position backwards or past the end.
pub proof fn lemma_exception_list_advances(b: Seq<u8>, pos: int, n: nat)
    requires
        0 <= pos <= b.len(),
    ensures
        ({
            let (r, p) = spec_exception_list(b, pos, n);
            pos <= p <= b.len()
        }),
    decreases n,
{
    if n > 0 {
        let (r0, p0) = spec_exception(b, pos);
        if r0 is Ok {
            lemma_exception_list_advances(b, p0, (n - 1) as nat);
        }
    }
}

/// Reading a whole exception table never moves the position backwards or
/// past the end.
pub proof fn lemma_exception_table_advances(b: Seq<u8>, pos: int)
    requires
        0 <= pos <= b.len(),
    ensures
        ({
            let (r, p) = spec_exception_table(b, pos);
            pos <= p <= b.len()
        }),
{
    let (rc, p0) = spec_read_u2(b, pos);
    if rc is Ok {
        lemma_exception_list_advances(b, p0, rc->Ok_0 as nat);
    }
}

/// The name that selects the ConstantValue attribute reader.
pub open spec fn constant_value_name() -> Seq<char> {
    "ConstantValue"@
}

/// The name that selects the Code attribute reader.
pub open spec fn code_name() -> Seq<char> {
    "Code"@
}

/// The name that selects the SourceFile attribute reader.
pub open spec fn source_file_name() -> Seq<char> {
    "SourceFile"@
}

/// The mathematical content of one decoded attribute.
pub enum AttributeView {
    Raw { name: Seq<char>, info: Seq<u8> },
    Constant { name: Seq<char>, constant_value_index: u16 },
    Code {
        name: Seq<char>,
        pool: Seq<Option<CPInfoView>>,
        max_stack: u16,
        max_locals: u16,
        code: Seq<u8>,
        exception_table: Seq<Exception>,
        attributes: Seq<AttributeView>,
    },
    Source { name: Seq<char>, pool: Seq<Option<CPInfoView>>, sourcefile_index: u16 },
}

/// Outcome of reading one attribute at `pos`: a name index resolved through
/// the pool to a Utf8 record, a 32-bit declared length, then the body that
/// the name selects; an unrecognised name yields a raw span of exactly the
/// declared length.
pub open spec fn spec_attribute(b: Seq<u8>, pool: Seq<Option<CPInfoView>>, pos: int) -> (
    Result<AttributeView, Error>,
    int,
)
    decreases b.len() - pos, 0nat, 2nat,
{
    let (r1, p1) = spec_read_u2(b, pos);
    match r1 {
        Err(e) => (Err(e), p1),
        Ok(name_index) => match spec_get(pool, name_index as int) {
            Err(e) => (Err(e), p1),
            Ok(info) => {
                let (r2, p2) = spec_read_u4(b, p1);
                match r2 {
                    Err(e) => (Err(e), p2),
                    Ok(length) => match spec_as_str(info) {
                        Err(e) => (Err(e), p2),
                        Ok(name) => {
                            if name == constant_value_name() {
                                let (r3, p3) = spec_read_u2(b, p2);
                                (
                                    match r3 {
                                        Ok(v) => Ok(
                                            AttributeView::Constant {
                                                name,
                                                constant_value_index: v,
                                            },
                                        ),
                                        Err(e) => Err(e),
                                    },
                                    p3,
                                )
                            } else if name == code_name() {
                                spec_code_body(b, pool, p2, name)
                            } else if name == source_file_name() {
                                let (r3, p3) = spec_read_u2(b, p2);
                                (
                                    match r3 {
                                        Ok(v) => Ok(
                                            AttributeView::Source {
                                                name,
                                                pool,
                                                sourcefile_index: v,
                                            },
                                        ),
                                        Err(e) => Err(e),
                                    },
                                    p3,
                                )
                            } else {
                                let (r3, p3) = spec_read_slice(b, p2, length as int);
                                (
                                    match r3 {
                                        Ok(bs) => Ok(AttributeView::Raw { name, info: bs }),
                                        Err(e) => Err(e),
                                    },
                                    p3,
                                )
                            }
                        },
                    },
                }
            },
        },
    }
}

/// Outcome of reading a Code attribute body at `pos`, with the six header
/// bytes (name index and declared length) already consumed: stack and
/// locals bounds, the instruction bytes, the exception table, then a nested
/// attribute list read by the same rules as any other attribute list.
pub open spec fn spec_code_body(
    b: Seq<u8>,
    pool: Seq<Option<CPInfoView>>,
    pos: int,
    name: Seq<char>,
) -> (Result<AttributeView, Error>, int)
    decreases b.len() - pos, 0nat, 3nat,
{
    let (rs, p3) = spec_read_u2(b, pos);
    match rs {
        Err(e) => (Err(e), p3),
        Ok(max_stack) => {
            let (rl, p4) = spec_read_u2(b, p3);
            match rl {
                Err(e) => (Err(e), p4),
                Ok(max_locals) => {
                    let (rcl, p5) = spec_read_u4(b, p4);
                    match rcl {
                        Err(e) => (Err(e), p5),
                        Ok(code_length) => {
                            let (rb, p6) = spec_read_slice(b, p5, code_length as int);
                            match rb {
                                Err(e) => (Err(e), p6),
                                Ok(code) => {
                                    let (re, p7) = spec_exception_table(b, p6);
                                    match re {
                                        Err(e) => (Err(e), p7),
                                        Ok(exception_table) => {
                                            if pos < p7 <= b.len() {
                                                let (ra, p8) = spec_attributes(b, pool, p7);
                                                (
                                                    match ra {
                                                        Ok(attrs) => Ok(
                                                            AttributeView::Code {
                                                                name,
                                                                pool,
                                                                max_stack,
                                                                max_locals,
                                                                code,
                                                                exception_table,
                                                                attributes: attrs,
                                                            },
                                                        ),
                                                        Err(e) => Err(e),
                                                    },
                                                    p8,
                                                )
                                            } else {
                                                // never reached: the fixed header always
                                                // advances the position and a read never
                                                // passes the end (lemma_code_body_advances);
                                                // the branch keeps the descent of the
                                                // recursion measure evident
                                                (Err(Error::OutOfBounds(0)), p7)
                                            }
                                        },
                                    }
                                },
                            }
                        },
                    }
                },
            }
        },
    }
}

/// Outcome of reading a whole attribute list: a 16-bit count, then that
/// many attributes in sequence.
pub open spec fn spec_attributes(b: Seq<u8>, pool: Seq<Option<CPInfoView>>, pos: int) -> (
    Result<Seq<AttributeView>, Error>,
    int,
)
    decreases b.len() - pos, 0nat, 1nat,
{
    let (rc, p0) = spec_read_u2(b, pos);
    match rc {
        Err(e) => (Err(e), p0),
        Ok(count) => {
            if pos < p0 <= b.len() {
                spec_attribute_list(b, pool, p0, count as nat)
            } else {
                // never reached: a successful 16-bit read advances the
                // position by two and never passes the end
                (Err(Error::OutOfBounds(0)), p0)
            }
        },
    }
}

/// Outcome of reading `n` attributes in sequence starting at `pos`.
pub open spec fn spec_attribute_list(
    b: Seq<u8>,
    pool: Seq<Option<CPInfoView>>,
    pos: int,
    n: nat,
) -> (Result<Seq<AttributeView>, Error>, int)
    decreases b.len() - pos, n, 0nat,
{
    if n == 0 {
        (Ok(Seq::<AttributeView>::empty()), pos)
    } else {
        let (r0, p0) = spec_attribute(b, pool, pos);
        match r0 {
            Err(e) => (Err(e), p0),
            Ok(a) => {
                if pos < p0 <= b.len() {
                    let (r, p) = spec_attribute_list(b, pool, p0, (n - 1) as nat);
                    (
                        match r {
                            Ok(s) => Ok(seq![a] + s),
                            Err(e) => Err(e),
                        },
                        p,
                    )
                } else {
                    // never reached: a decoded attribute always advances the
                    // position (see lemma_attribute_advances)
                    (Err(Error::OutOfBounds(0)), p0)
                }
            },
        }
    }
}

/// A decoded attribute always leaves the position between its start and the
/// end of the buffer, and a successful decode consumes at least the six
/// header bytes.
pub proof fn lemma_attribute_advances(b: Seq<u8>, pool: Seq<Option<CPInfoView>>, pos: int)
    requires
        0 <= pos <= b.len(),
    ensures
        ({
            let (r, p) = spec_attribute(b, pool, pos);
            &&& pos <= p <= b.len()
            &&& (r is Ok ==> pos + 6 <= p)
        }),
    decreases b.len() - pos, 0nat, 2nat,
{
    let (r1, p1) = spec_read_u2(b, pos);
    if r1 is Ok {
        let name_index = r1->Ok_0;
        if spec_get(pool, name_index as int) is Ok {
            let info = spec_get(pool, name_index as int)->Ok_0;
            let (r2, p2) = spec_read_u4(b, p1);
            if r2 is Ok {
                if spec_as_str(info) is Ok {
                    let name = spec_as_str(info)->Ok_0;
                    if name == code_name() {
                        lemma_code_body_advances(b, pool, p2, name);
                    }
                }
            }
        }
    }
}

/// A decoded Code body always leaves the position between its start and
/// the end of the buffer, and a successful decode consumes at least its
/// eight fixed header bytes.
pub proof fn lemma_code_body_advances(
    b: Seq<u8>,
    pool: Seq<Option<CPInfoView>>,
    pos: int,
    name: Seq<char>,
)
    requires
        0 <= pos <= b.len(),
    ensures
        ({
            let (r, p) = spec_code_body(b, pool, pos, name);
            &&& pos <= p <= b.len()
            &&& (r is Ok ==> pos + 8 <= p)
        }),
    decreases b.len() - pos, 0nat, 3nat,
{
    let (rs, p3) = spec_read_u2(b, pos);
    if rs is Ok {
        let (rl, p4) = spec_read_u2(b, p3);
        if rl is Ok {
            let (rcl, p5) = spec_read_u4(b, p4);
            if rcl is Ok {
                let (rb, p6) = spec_read_slice(b, p5, rcl->Ok_0 as int);
                if rb is Ok {
                    lemma_exception_table_advances(b, p6);
                    let (re, p7) = spec_exception_table(b, p6);
                    if re is Ok {
                        lemma_attributes_advance(b, pool, p7);
                    }
                }
            }
        }
    }
}

/// A decoded attribute list always leaves the position between its start
/// and the end of the buffer, and a successful decode consumes at least the
/// two count bytes.
pub proof fn lemma_attributes_advance(b: Seq<u8>, pool: Seq<Option<CPInfoView>>, pos: int)
    requires
        0 <= pos <= b.len(),
    ensures
        ({
            let (r, p) = spec_attributes(b, pool, pos);
            &&& pos <= p <= b.len()
            &&& (r is Ok ==> pos + 2 <= p)
        }),
    decreases b.len() - pos, 0nat, 1nat,
{
    let (rc, p0) = spec_read_u2(b, pos);
    if rc is Ok {
        lemma_attribute_list_advances(b, pool, p0, rc->Ok_0 as nat);
    }
}

/// Reading `n` attributes never moves the position backwards or past the
/// end.
pub proof fn lemma_attribute_list_advances(
    b: Seq<u8>,
    pool: Seq<Option<CPInfoView>>,
    pos: int,
    n: nat,
)
    requires
        0 <= pos <= b.len(),
    ensures
        ({
            let (r, p) = spec_attribute_list(b, pool, pos, n);
            pos <= p <= b.len()
        }),
    decreases b.len() - pos, n, 0nat,
{
    if n > 0 {
        lemma_attribute_advances(b, pool, pos);
        let (r0, p0) = spec_attribute(b, pool, pos);
        if r0 is Ok {
            lemma_attribute_list_advances(b, pool, p0, (n - 1) as nat);
        }
    }
}

/// An attribute of unrecognised name consumes exactly its six header bytes
/// plus the declared length, so the attribute after it in a list is decoded
/// at the position the length field promises: skipping an unknown attribute
/// never desynchronises the reader.
pub proof fn lemma_raw_attribute_consumes_declared(
    b: Seq<u8>,
    pool: Seq<Option<CPInfoView>>,
    pos: int,
)
    requires
        ({
            let (r, p) = spec_attribute(b, pool, pos);
            r is Ok && r->Ok_0 is Raw
        }),
    ensures
        ({
            let (r, p) = spec_attribute(b, pool, pos);
            p == pos + 6 + u32_be(b, pos + 2)
        }),
{
}

/// Skipping an attribute of unrecognised name never desynchronises a list:
/// the list decode continues with the remaining attributes exactly at the
/// boundary the declared length promises.
pub proof fn lemma_raw_attribute_keeps_list_in_step(
    b: Seq<u8>,
    pool: Seq<Option<CPInfoView>>,
    pos: int,
    n: nat,
)
    requires
        n >= 1,
        0 <= pos <= b.len(),
        ({
            let (r, p) = spec_attribute(b, pool, pos);
            r is Ok && r->Ok_0 is Raw
        }),
    ensures
        ({
            let (r0, p0) = spec_attribute(b, pool, pos);
            let (rr, rp) = spec_attribute_list(
                b,
                pool,
                pos + 6 + u32_be(b, pos + 2),
                (n - 1) as nat,
            );
            spec_attribute_list(b, pool, pos, n) == (
                match rr {
                    Ok(s) => Ok::<Seq<AttributeView>, Error>(seq![r0->Ok_0] + s),
                    Err(e) => Err::<Seq<AttributeView>, Error>(e),
                },
                rp,
            )
        }),
{
    lemma_raw_attribute_consumes_declared(b, pool, pos);
    lemma_attribute_advances(b, pool, pos);
}

/// One decoded attribute: a known structured kind, or the raw fallback that
/// keeps unrecognised names non-fatal.
pub enum AttributeInfo {
    Raw(RawAttribute),
    Constant(ConstantValueAttribute),
    Code(CodeAttribute),
    Source(SourceFileAttribute),
}

/// An attribute of unrecognised name: its name and its payload, kept as an
/// opaque span of exactly the declared length.
pub struct RawAttribute {
    pub name: String,
    pub info: Vec<u8>,
}

/// A ConstantValue attribute: the pool index of the constant.
pub struct ConstantValueAttribute {
    pub name: String,
    pub constant_value_index: u16,
}

/// A Code attribute: stack and locals bounds, the raw instruction bytes,
/// the exception table, and a nested attribute list that shares the pool.
pub struct CodeAttribute {
    pub name: String,
    pub constant_pool: Rc<ConstantPoolRep>,
    pub max_stack: u16,
    pub max_locals: u16,
    pub code: Vec<u8>,
    pub exception_table: Vec<Exception>,
    pub attributes: Vec<AttributeInfo>,
}

/// A SourceFile attribute: the pool index of the source-file name.
pub struct SourceFileAttribute {
    pub constant_pool: Rc<ConstantPoolRep>,
    pub name: String,
    pub sourcefile_index: u16,
}

/// The content of one decoded attribute.
pub open spec fn attr_view(a: AttributeInfo) -> AttributeView
    decreases a,
{
    match a {
        AttributeInfo::Raw(x) => AttributeView::Raw { name: x.name@, info: x.info@ },
        AttributeInfo::Constant(x) => AttributeView::Constant {
            name: x.name@,
            constant_value_index: x.constant_value_index,
        },
        AttributeInfo::Code(x) => AttributeView::Code {
            name: x.name@,
            pool: x.constant_pool@,
            max_stack: x.max_stack,
            max_locals: x.max_locals,
            code: x.code@,
            exception_table: x.exception_table@,
            attributes: attrs_view(x.attributes),
        },
        AttributeInfo::Source(x) => AttributeView::Source {
            name: x.name@,
            pool: x.constant_pool@,
            sourcefile_index: x.sourcefile_index,
        },
    }
}

/// The contents of a list of decoded attributes.
pub open spec fn attrs_view(attrs: Vec<AttributeInfo>) -> Seq<AttributeView>
    decreases attrs,
{
    Seq::new(
        attrs@.len(),
        |i: int|
            if 0 <= i < attrs@.len() {
                attr_view(attrs[i])
            } else {
                AttributeView::Raw { name: Seq::empty(), info: Seq::empty() }
            },
    )
}

impl View for AttributeInfo {
    type V = AttributeView;

    open spec fn view(&self) -> AttributeView {
        attr_view(*self)
    }
}

impl Exception {
    /// Reads one exception-table row: four 16-bit fields.
    pub fn read(slice: &mut PoSlice) -> (r: Result<Self, Error>)
        requires
            old(slice).wf(),
        ensures
            final(slice).wf(),
            final(slice).bytes_view() == old(slice).bytes_view(),
            ({
                let (r0, p0) = spec_exception(old(slice).bytes_view(), old(slice).spec_pos());
                &&& final(slice).spec_pos() == p0
                &&& match r0 {
                    Ok(v) => r == Ok::<Exception, Error>(v),
                    Err(e) => r == Err::<Exception, Error>(e),
                }
            }),
    {
        let start_pc = slice.read_u2()?;
        let end_pc = slice.read_u2()?;
        let handler_pc = slice.read_u2()?;
        let catch_type = slice.read_u2()?;
        Ok(Exception { start_pc, end_pc, handler_pc, catch_type })
    }

    /// Reads a whole exception table: the row count, then the rows.
    pub fn read_table(slice: &mut PoSlice) -> (r: Result<Vec<Exception>, Error>)
        requires
            old(slice).wf(),
        ensures
            final(slice).wf(),
            final(slice).bytes_view() == old(slice).bytes_view(),
            ({
                let (r0, p0) = spec_exception_table(
                    old(slice).bytes_view(),
                    old(slice).spec_pos(),
                );
                &&& final(slice).spec_pos() == p0
                &&& match r0 {
                    Ok(s) => r is Ok && r->Ok_0@ == s,
                    Err(e) => r == Err::<Vec<Exception>, Error>(e),
                }
            }),
    {
        let ghost b = old(slice).bytes_view();
        let count_raw = slice.read_u2()?;
        let count = count_raw as usize;
        let ghost total = spec_exception_list(b, slice.spec_pos(), count as nat);
        let mut rows: Vec<Exception> = Vec::new();
        while rows.len() < count
            invariant
                slice.wf(),
                slice.bytes_view() == b,
                rows.len() <= count,
                ({
                    let (rr, rp) = spec_exception_list(
                        b,
                        slice.spec_pos(),
                        (count - rows.len()) as nat,
                    );
                    &&& total.1 == rp
                    &&& total.0 == match rr {
                        Ok(s) => Ok::<Seq<Exception>, Error>(rows@ + s),
                        Err(e) => Err::<Seq<Exception>, Error>(e),
                    }
                }),
            decreases count - rows.len(),
        {
            let ghost prefix = rows@;
            match Exception::read(slice) {
                Ok(row) => {
                    rows.push(row);
                    proof {
                        let (rr, rp) = spec_exception_list(
                            b,
                            slice.spec_pos(),
                            (count - rows.len()) as nat,
                        );
                        if rr is Ok {
                            assert(rows@ + rr->Ok_0 =~= prefix + (seq![row] + rr->Ok_0));
                        }
                    }
                },
                Err(e) => {
                    return Err(e);
                },
            }
        }
        proof {
            assert(rows@ + Seq::<Exception>::empty() =~= rows@);
        }
        Ok(rows)
    }
}

impl RawAttribute {
    /// Reads the body of an attribute of unrecognised name: exactly the
    /// declared number of bytes, kept opaque.
    fn new(slice: &mut PoSlice, name: String, length: u32) -> (r: Result<Self, Error>)
        requires
            old(slice).wf(),
        ensures
            final(slice).wf(),
            final(slice).bytes_view() == old(slice).bytes_view(),
            ({
                let (r0, p0) = spec_read_slice(
                    old(slice).bytes_view(),
                    old(slice).spec_pos(),
                    length as int,
                );
                &&& final(slice).spec_pos() == p0
                &&& match r0 {
                    Ok(bs) => r is Ok && r->Ok_0.name@ == name@ && r->Ok_0.info@ == bs,
                    Err(e) => r == Err::<RawAttribute, Error>(e),
                }
            }),
    {
        let info = slice.read_slice_vec(length as usize)?;
        Ok(RawAttribute { name, info })
    }
}

impl ConstantValueAttribute {
    /// Reads the body of a ConstantValue attribute: one pool index.
    fn new(slice: &mut PoSlice, name: String) -> (r: Result<Self, Error>)
        requires
            old(slice).wf(),
        ensures
            final(slice).wf(),
            final(slice).bytes_view() == old(slice).bytes_view(),
            ({
                let (r0, p0) = spec_read_u2(old(slice).bytes_view(), old(slice).spec_pos());
                &&& final(slice).spec_pos() == p0
                &&& match r0 {
                    Ok(v) => r is Ok && r->Ok_0.name@ == name@ && r->Ok_0.constant_value_index
                        == v,
                    Err(e) => r == Err::<ConstantValueAttribute, Error>(e),
                }
            }),
    {
        Ok(ConstantValueAttribute { name, constant_value_index: slice.read_u2()? })
    }
}

impl SourceFileAttribute {
    /// Reads the body of a SourceFile attribute: one pool index.
    fn new(slice: &mut PoSlice, name: String, constant_pool: Rc<ConstantPoolRep>) -> (r: Result<
        Self,
        Error,
    >)
        requires
            old(slice).wf(),
        ensures
            final(slice).wf(),
            final(slice).bytes_view() == old(slice).bytes_view(),
            ({
                let (r0, p0) = spec_read_u2(old(slice).bytes_view(), old(slice).spec_pos());
                &&& final(slice).spec_pos() == p0
                &&& match r0 {
                    Ok(v) => r is Ok && r->Ok_0.name@ == name@ && r->Ok_0.sourcefile_index == v
                        && r->Ok_0.constant_pool@ == constant_pool@,
                    Err(e) => r == Err::<SourceFileAttribute, Error>(e),
                }
            }),
    {
        Ok(SourceFileAttribute { constant_pool, name, sourcefile_index: slice.read_u2()? })
    }
}

impl CodeAttribute {
    /// Reads the body of a Code attribute; the nested attribute list is
    /// read recursively by the same rules as any other attribute list.
    fn new(slice: &mut PoSlice, name: String, constant_pool: Rc<ConstantPoolRep>) -> (r: Result<
        Self,
        Error,
    >)
        requires
            old(slice).wf(),
            constant_pool@.len() <= 0xFFFF,
        ensures
            final(slice).wf(),
            final(slice).bytes_view() == old(slice).bytes_view(),
            ({
                let (r0, p0) = spec_code_body(
                    old(slice).bytes_view(),
                    constant_pool@,
                    old(slice).spec_pos(),
                    name@,
                );
                &&& final(slice).spec_pos() == p0
                &&& match r0 {
                    Ok(v) => r is Ok && attr_view(AttributeInfo::Code(r->Ok_0)) == v,
                    Err(e) => r == Err::<CodeAttribute, Error>(e),
                }
            }),
        decreases slice.bytes_view().len() - slice.spec_pos(), 0nat, 2nat,
    {
        let ghost b = old(slice).bytes_view();
        let ghost pos0 = old(slice).spec_pos();
        let max_stack = slice.read_u2()?;
        let max_locals = slice.read_u2()?;
        let code_length = slice.read_u4()?;
        let code = slice.read_slice_vec(code_length as usize)?;
        let exception_table = Exception::read_table(slice)?;
        proof {
            lemma_exception_table_advances(b, pos0 + 8 + code_length as int);
        }
        let attributes = AttributeInfo::read_attributes(slice, constant_pool.clone())?;
        Ok(
            CodeAttribute {
                name,
                constant_pool,
                max_stack,
                max_locals,
                code,
                exception_table,
                attributes,
            },
        )
    }
}

impl AttributeInfo {
    /// Reads one attribute: the name index, resolved through the pool to a
    /// Utf8 record, the declared length, then the body the name selects.
    pub fn new(slice: &mut PoSlice, constant_pool: Rc<ConstantPoolRep>) -> (r: Result<
        AttributeInfo,
        Error,
    >)
        requires
            old(slice).wf(),
            constant_pool@.len() <= 0xFFFF,
        ensures
            final(slice).wf(),
            final(slice).bytes_view() == old(slice).bytes_view(),
            ({
                let (r0, p0) = spec_attribute(
                    old(slice).bytes_view(),
                    constant_pool@,
                    old(slice).spec_pos(),
                );
                &&& final(slice).spec_pos() == p0
                &&& match r0 {
                    Ok(v) => r is Ok && r->Ok_0@ == v,
                    Err(e) => r == Err::<AttributeInfo, Error>(e),
                }
            }),
        decreases slice.bytes_view().len() - slice.spec_pos(), 0nat, 3nat,
    {
        let attribute_name_index = slice.read_u2()?;
        let info = constant_pool.get(attribute_name_index as usize)?;
        let attribute_length = slice.read_u4()?;
        let name = info.as_str()?;
        if str_eq(name, "ConstantValue") {
            Ok(AttributeInfo::Constant(ConstantValueAttribute::new(slice, name.to_owned())?))
        } else if str_eq(name, "Code") {
            Ok(
                AttributeInfo::Code(
                    CodeAttribute::new(slice, name.to_owned(), constant_pool.clone())?,
                ),
            )
        } else if str_eq(name, "SourceFile") {
            Ok(
                AttributeInfo::Source(
                    SourceFileAttribute::new(slice, name.to_owned(), constant_pool.clone())?,
                ),
            )
        } else {
            Ok(AttributeInfo::Raw(RawAttribute::new(slice, name.to_owned(), attribute_length)?))
        }
    }

    /// Reads a whole attribute list: the count, then that many attributes.
    pub fn read_attributes(slice: &mut PoSlice, constant_pool: Rc<ConstantPoolRep>) -> (r: Result<
        Vec<AttributeInfo>,
        Error,
    >)
        requires
            old(slice).wf(),
            constant_pool@.len() <= 0xFFFF,
        ensures
            final(slice).wf(),
            final(slice).bytes_view() == old(slice).bytes_view(),
            ({
                let (r0, p0) = spec_attributes(
                    old(slice).bytes_view(),
                    constant_pool@,
                    old(slice).spec_pos(),
                );
                &&& final(slice).spec_pos() == p0
                &&& match r0 {
                    Ok(s) => r is Ok && attrs_view(r->Ok_0) == s,
                    Err(e) => r == Err::<Vec<AttributeInfo>, Error>(e),
                }
            }),
        decreases slice.bytes_view().len() - slice.spec_pos(), 0nat, 1nat,
    {
        let ghost b = old(slice).bytes_view();
        let ghost pos0 = old(slice).spec_pos();
        let count_raw = slice.read_u2()?;
        let count = count_raw as usize;
        let ghost total = spec_attribute_list(b, constant_pool@, slice.spec_pos(), count as nat);
        let mut attribute_infos: Vec<AttributeInfo> = Vec::new();
        while attribute_infos.len() < count
            invariant
                slice.wf(),
                slice.bytes_view() == b,
                attribute_infos.len() <= count,
                slice.spec_pos() >= pos0 + 2,
                ({
                    let (rr, rp) = spec_attribute_list(
                        b,
                        constant_pool@,
                        slice.spec_pos(),
                        (count - attribute_infos.len()) as nat,
                    );
                    &&& total.1 == rp
                    &&& total.0 == match rr {
                        Ok(s) => Ok::<Seq<AttributeView>, Error>(
                            attrs_view(attribute_infos) + s,
                        ),
                        Err(e) => Err::<Seq<AttributeView>, Error>(e),
                    }
                }),
            decreases count - attribute_infos.len(),
        {
            let ghost prefix = attrs_view(attribute_infos);
            proof {
                lemma_attribute_advances(b, constant_pool@, slice.spec_pos());
            }
            match AttributeInfo::new(slice, constant_pool.clone()) {
                Ok(info) => {
                    attribute_infos.push(info);
                    proof {
                        let (rr, rp) = spec_attribute_list(
                            b,
                            constant_pool@,
                            slice.spec_pos(),
                            (count - attribute_infos.len()) as nat,
                        );
                        if rr is Ok {
                            let v = attrs_view(attribute_infos).last();
                            assert(attrs_view(attribute_infos) =~= prefix.push(v));
                            assert(attrs_view(attribute_infos) + rr->Ok_0 =~= prefix + (seq![v]
                                + rr->Ok_0));
                        }
                    }
                },
                Err(e) => {
                    return Err(e);
                },
            }
        }
        proof {
            assert(attrs_view(attribute_infos) + Seq::<AttributeView>::empty() =~= attrs_view(
                attribute_infos,
            ));
        }
        Ok(attribute_infos)
    }

    /// True of the Code variant alone.
    pub fn is_code(&self) -> (r: bool)
        ensures
            r == (self@ is Code),
    {
        match self {
            AttributeInfo::Code(_) => true,
            _ => false,
        }
    }
}

} // verus!
