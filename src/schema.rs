//! The schema model (fields, context, values) and the meaning of parsing one
//! field, one structure and one sum type, stated over the stream's model.
use vstd::prelude::*;
use crate::endian::{decode, ByteOrder, Endian};
use crate::error::{ConversionCause, FieldError, IoErrorKind, SpecFieldError};
use crate::stream::{bytes_at, io_error};

verus! {

/// An integer field's width.
#[derive(Clone, Copy, Debug, PartialEq, Eq, Structural)]
pub enum IntWidth {
    U8,
    U16,
    U32,
    U64,
}

pub open spec fn width_bytes(w: IntWidth) -> nat {
    match w {
        IntWidth::U8 => 1,
        IntWidth::U16 => 2,
        IntWidth::U32 => 4,
        IntWidth::U64 => 8,
    }
}

/// A number that is either written in the schema or taken from an earlier
/// sibling's value (the argument channel from parent to child).
#[derive(Clone, Copy, Debug, PartialEq, Eq, Structural)]
pub enum Operand {
    Const(u64),
    /// The value of the sibling at this index; zero where that sibling is not
    /// an integer or is not parsed yet.
    Field(usize),
}

/// What a field reads once its directives have placed the cursor.
#[derive(Clone, Copy, Debug, PartialEq, Eq, Structural)]
pub enum FieldKind {
    /// Nothing: a field that only checks a magic pattern.
    Unit,
    Int(IntWidth),
    /// A sequence of this many bytes.
    Bytes(Operand),
    /// A sequence of this many integers, each in the field's byte order.
    Ints(IntWidth, Operand),
}

/// The transform applied to an integer once it is read.
#[derive(Clone, Copy, Debug, PartialEq, Eq, Structural)]
pub enum Transform {
    Identity,
    /// A total transform: keep the bits of the mask.
    Mask(u64),
    /// A fallible transform: subtract, failing with `Conversion` below zero.
    CheckedSub(u64),
}

#[derive(Clone, Copy, Debug, PartialEq, Eq, Structural)]
pub enum CmpOp {
    Eq,
    Ne,
    Lt,
    Le,
    Gt,
    Ge,
}

/// A postcondition on an integer field: `value op rhs`.
#[derive(Clone, Debug)]
pub struct Assertion {
    pub op: CmpOp,
    pub rhs: u64,
    pub message: Option<String>,
}

/// One member of a structure, with its layout directives.
#[derive(Clone, Debug)]
pub struct Field {
    pub name: String,
    pub kind: FieldKind,
    /// Overrides the context's byte order for this field.
    pub endian: Option<ByteOrder>,
    /// A byte pattern required, and consumed, before the value.
    pub magic: Option<Vec<u8>>,
    /// Read at `context.offset + offset`, then go back to where the field
    /// would have started.
    pub offset: Option<Operand>,
    /// With `offset`: leave the cursor where the read ended instead.
    pub restore_position: bool,
    pub pad_before: u64,
    pub align_before: u64,
    pub pad_after: u64,
    pub align_after: u64,
    /// The field is read only where the sibling at this index holds a nonzero
    /// integer; otherwise it is absent.
    pub condition: Option<usize>,
    pub transform: Transform,
    pub assertion: Option<Assertion>,
    /// Read in a second pass, once every other field of the structure is read.
    pub deferred: bool,
    /// A failure of this field goes to the structure's error basket; the
    /// field is then absent.
    pub ignore_errors: bool,
}

impl Field {
    /// A field of the given kind with no directives: read in place, in the
    /// context's byte order, kept as read.
    pub fn new(name: String, kind: FieldKind) -> (r: Field)
        ensures
            r.name == name,
            r.kind == kind,
            r.endian is None,
            r.magic is None,
            r.offset is None,
            !r.restore_position,
            r.pad_before == 0 && r.align_before == 0 && r.pad_after == 0 && r.align_after == 0,
            r.condition is None,
            r.transform == Transform::Identity,
            r.assertion is None,
            !r.deferred,
            !r.ignore_errors,
    {
        Field {
            name,
            kind,
            endian: None,
            magic: None,
            offset: None,
            restore_position: false,
            pad_before: 0,
            align_before: 0,
            pad_after: 0,
            align_after: 0,
            condition: None,
            transform: Transform::Identity,
            assertion: None,
            deferred: false,
            ignore_errors: false,
        }
    }
}

/// The settings threaded into a parse.
#[derive(Clone, Copy, Debug, PartialEq, Eq, Structural)]
pub struct Context {
    pub endian: ByteOrder,
    /// The base of `offset` fields.
    pub offset: u64,
}

impl Context {
    /// A context in the byte order the directive names on this machine.
    pub fn new(endian: Endian, offset: u64) -> (r: Context)
        ensures
            r.offset == offset,
            endian == Endian::Big ==> r.endian == ByteOrder::Big,
            endian == Endian::Little ==> r.endian == ByteOrder::Little,
    {
        Context { endian: endian.resolve(), offset }
    }
}

/// A parsed field.
#[derive(Clone, Debug)]
pub enum Value {
    Absent,
    Int(u64),
    Bytes(Vec<u8>),
    Ints(Vec<u64>),
}

pub enum SpecValue {
    Absent,
    Int(u64),
    Bytes(Seq<u8>),
    Ints(Seq<u64>),
}

impl View for Value {
    type V = SpecValue;

    open spec fn view(&self) -> SpecValue {
        match self {
            Value::Absent => SpecValue::Absent,
            Value::Int(v) => SpecValue::Int(*v),
            Value::Bytes(b) => SpecValue::Bytes(b@),
            Value::Ints(v) => SpecValue::Ints(v@),
        }
    }
}

pub open spec fn values_view(v: Seq<Value>) -> Seq<SpecValue> {
    v.map_values(|x: Value| x@)
}

pub open spec fn errors_view(v: Seq<FieldError>) -> Seq<SpecFieldError> {
    v.map_values(|x: FieldError| x@)
}

/// A parsed structure: one value per field, and the errors of the fields that
/// ignore errors.
#[derive(Clone, Debug)]
pub struct Parsed {
    pub values: Vec<Value>,
    pub errors: Vec<FieldError>,
}

/// The model of a structure's parse: values, error basket, final position.
pub type StructOutcome = Result<(Seq<SpecValue>, Seq<SpecFieldError>, int), SpecFieldError>;

pub open spec fn operand_value(vals: Seq<SpecValue>, op: Operand) -> int {
    match op {
        Operand::Const(c) => c as int,
        Operand::Field(j) => if j < vals.len() {
            match vals[j as int] {
                SpecValue::Int(v) => v as int,
                _ => 0,
            }
        } else {
            0
        },
    }
}

pub open spec fn align_up(p: int, a: int) -> int {
    if a <= 1 || p % a == 0 {
        p
    } else {
        p + (a - p % a)
    }
}

/// Moves `p` on by `pad` and then up to a multiple of `align`.
pub open spec fn spec_skip(p: int, pad: int, align: int) -> Result<int, SpecFieldError> {
    if p + pad > u64::MAX {
        Err(io_error(IoErrorKind::InvalidSeek, p))
    } else if align_up(p + pad, align) > u64::MAX {
        Err(io_error(IoErrorKind::InvalidSeek, p + pad))
    } else {
        Ok(align_up(p + pad, align))
    }
}

/// Checks the magic pattern at `p`; the position after it.
pub open spec fn spec_magic(data: Seq<u8>, p: int, magic: Seq<u8>) -> Result<int, SpecFieldError> {
    match bytes_at(data, p, magic.len() as int) {
        None => Err(io_error(IoErrorKind::UnexpectedEof, p)),
        Some(a) => if a == magic {
            Ok(p + magic.len())
        } else {
            Err(SpecFieldError::BadMagic { expected: magic, actual: a, position: p })
        },
    }
}

pub open spec fn field_order(f: Field, ctx: Context) -> ByteOrder {
    match f.endian {
        Some(o) => o,
        None => ctx.endian,
    }
}

/// Reads `n` integers of `w` bytes one after another from `p`, failing at the
/// first that is not there; the integers and the position after them.
pub open spec fn spec_read_ints(
    data: Seq<u8>,
    p: int,
    w: nat,
    n: nat,
    order: ByteOrder,
) -> Result<(Seq<u64>, int), SpecFieldError>
    decreases n,
{
    if n == 0 {
        Ok((Seq::empty(), p))
    } else {
        match bytes_at(data, p, w as int) {
            None => Err(io_error(IoErrorKind::UnexpectedEof, p)),
            Some(b) => match spec_read_ints(data, p + w, w, (n - 1) as nat, order) {
                Ok((rest, e)) => Ok((seq![decode(order, b) as u64] + rest, e)),
                Err(e) => Err(e),
            },
        }
    }
}

/// Reads the field's raw value at `p`; the value and the position after it.
pub open spec fn spec_read_kind(
    f: Field,
    vals: Seq<SpecValue>,
    ctx: Context,
    data: Seq<u8>,
    p: int,
) -> Result<(SpecValue, int), SpecFieldError> {
    let n: int = match f.kind {
        FieldKind::Unit => 0,
        FieldKind::Int(w) => width_bytes(w) as int,
        FieldKind::Bytes(c) => operand_value(vals, c),
        FieldKind::Ints(_, _) => 0,
    };
    if let FieldKind::Ints(w, c) = f.kind {
        match spec_read_ints(
            data,
            p,
            width_bytes(w),
            operand_value(vals, c) as nat,
            field_order(f, ctx),
        ) {
            Ok((v, e)) => Ok((SpecValue::Ints(v), e)),
            Err(e) => Err(e),
        }
    } else {
    match bytes_at(data, p, n) {
        None => Err(io_error(IoErrorKind::UnexpectedEof, p)),
        Some(b) => Ok(
            (
                match f.kind {
                    FieldKind::Unit => SpecValue::Absent,
                    FieldKind::Int(w) => SpecValue::Int(decode(field_order(f, ctx), b) as u64),
                    _ => SpecValue::Bytes(b),
                },
                p + n,
            ),
        ),
    }
    }
}

pub open spec fn holds(op: CmpOp, a: u64, b: u64) -> bool {
    match op {
        CmpOp::Eq => a == b,
        CmpOp::Ne => a != b,
        CmpOp::Lt => a < b,
        CmpOp::Le => a <= b,
        CmpOp::Gt => a > b,
        CmpOp::Ge => a >= b,
    }
}

/// Applies the transform and then the assertion to a raw value read at `p`.
pub open spec fn spec_finish(f: Field, v: SpecValue, p: int) -> Result<SpecValue, SpecFieldError> {
    match v {
        SpecValue::Int(x) => {
            let mapped: Result<u64, SpecFieldError> = match f.transform {
                Transform::Identity => Ok(x),
                Transform::Mask(m) => Ok(x & m),
                Transform::CheckedSub(k) => if x >= k {
                    Ok((x - k) as u64)
                } else {
                    Err(
                        SpecFieldError::Conversion {
                            position: p,
                            cause: ConversionCause::Underflow { value: x, amount: k },
                        },
                    )
                },
            };
            match mapped {
                Err(e) => Err(e),
                Ok(y) => match f.assertion {
                    Some(a) => if holds(a.op, y, a.rhs) {
                        Ok(SpecValue::Int(y))
                    } else {
                        Err(
                            SpecFieldError::AssertionFailed {
                                position: p,
                                field: f.name@,
                                message: crate::error::opt_str_view(a.message),
                            },
                        )
                    },
                    None => Ok(SpecValue::Int(y)),
                },
            }
        },
        _ => Ok(v),
    }
}

pub open spec fn is_present(f: Field, vals: Seq<SpecValue>) -> bool {
    match f.condition {
        Some(j) => operand_value(vals, Operand::Field(j)) != 0,
        None => true,
    }
}

/// The meaning of parsing one field at `pos`, with the siblings parsed so far
/// in `vals`: the field's value and the position the next sibling reads at.
pub open spec fn spec_field(
    f: Field,
    vals: Seq<SpecValue>,
    ctx: Context,
    data: Seq<u8>,
    pos: int,
) -> Result<(SpecValue, int), SpecFieldError> {
    match spec_skip(pos, f.pad_before as int, f.align_before as int) {
        Err(e) => Err(e),
        Ok(p2) => {
            let start: int = match f.offset {
                Some(o) => ctx.offset + operand_value(vals, o),
                None => p2,
            };
            if start > u64::MAX {
                Err(io_error(IoErrorKind::InvalidSeek, p2))
            } else {
                let magic_end: Result<int, SpecFieldError> = match f.magic {
                    Some(m) => spec_magic(data, start, m@),
                    None => Ok(start),
                };
                match magic_end {
                    Err(e) => Err(e),
                    Ok(p3) => {
                        let body: Result<(SpecValue, int), SpecFieldError> = if is_present(
                            f,
                            vals,
                        ) {
                            match spec_read_kind(f, vals, ctx, data, p3) {
                                Err(e) => Err(e),
                                Ok((raw, p4)) => match spec_finish(f, raw, p3) {
                                    Err(e) => Err(e),
                                    Ok(v) => Ok((v, p4)),
                                },
                            }
                        } else {
                            Ok((SpecValue::Absent, p3))
                        };
                        match body {
                            Err(e) => Err(e),
                            Ok((v, p4)) => {
                                let end = if f.offset.is_some() && !f.restore_position {
                                    p2
                                } else {
                                    p4
                                };
                                match spec_skip(end, f.pad_after as int, f.align_after as int) {
                                    Err(e) => Err(e),
                                    Ok(p6) => Ok((v, p6)),
                                }
                            },
                        }
                    },
                }
            }
        },
    }
}

/// The first pass over a structure: every field in order but the deferred
/// ones, which hold `Absent` for now. `vals` and `basket` are what the fields
/// before have given.
pub open spec fn spec_gather(
    fields: Seq<Field>,
    ctx: Context,
    data: Seq<u8>,
    pos: int,
    vals: Seq<SpecValue>,
    basket: Seq<SpecFieldError>,
) -> StructOutcome
    decreases fields.len() - vals.len(),
{
    if vals.len() >= fields.len() {
        Ok((vals, basket, pos))
    } else {
        let f = fields[vals.len() as int];
        if f.deferred {
            spec_gather(fields, ctx, data, pos, vals.push(SpecValue::Absent), basket)
        } else {
            match spec_field(f, vals, ctx, data, pos) {
                Ok((v, p)) => spec_gather(fields, ctx, data, p, vals.push(v), basket),
                Err(e) => if f.ignore_errors {
                    spec_gather(fields, ctx, data, pos, vals.push(SpecValue::Absent), basket.push(e))
                } else {
                    Err(e)
                },
            }
        }
    }
}

/// The second pass: the deferred fields from index `i` on, in order, each
/// seeing every value gathered so far.
pub open spec fn spec_resolve(
    fields: Seq<Field>,
    ctx: Context,
    data: Seq<u8>,
    pos: int,
    i: int,
    vals: Seq<SpecValue>,
    basket: Seq<SpecFieldError>,
) -> StructOutcome
    decreases fields.len() - i,
{
    if i < 0 || i >= fields.len() {
        Ok((vals, basket, pos))
    } else if !fields[i].deferred {
        spec_resolve(fields, ctx, data, pos, i + 1, vals, basket)
    } else {
        match spec_field(fields[i], vals, ctx, data, pos) {
            Ok((v, p)) => spec_resolve(fields, ctx, data, p, i + 1, vals.update(i, v), basket),
            Err(e) => if fields[i].ignore_errors {
                spec_resolve(fields, ctx, data, pos, i + 1, vals, basket.push(e))
            } else {
                Err(e)
            },
        }
    }
}

/// The meaning of parsing a structure at `pos`: both passes; the structure
/// ends where the first pass ended.
pub open spec fn spec_parse_struct(
    fields: Seq<Field>,
    ctx: Context,
    data: Seq<u8>,
    pos: int,
) -> StructOutcome {
    match spec_gather(fields, ctx, data, pos, Seq::empty(), Seq::empty()) {
        Err(e) => Err(e),
        Ok((v, b, p)) => match spec_resolve(fields, ctx, data, p, 0, v, b) {
            Err(e) => Err(e),
            Ok((v2, b2, _)) => Ok((v2, b2, p)),
        },
    }
}

} // verus!
