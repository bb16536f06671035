//! Parsing one field: the per-field pipeline of seeks, magic check, read,
//! transform and assertion.
use vstd::prelude::*;
use crate::endian::{decode_uint, ByteOrder};
use crate::error::{ConversionCause, FieldError, IoErrorKind, SpecFieldError};
use crate::schema::{
    operand_value, spec_field, spec_finish, spec_magic, spec_read_ints, spec_read_kind, spec_skip,
    width_bytes,
    values_view, CmpOp, Context, Field, FieldKind, IntWidth, Operand, Transform, Value,
};
use crate::stream::ByteStream;

verus! {

/// A copy of a byte vector.
pub fn copy_bytes(b: &Vec<u8>) -> (r: Vec<u8>)
    ensures
        r@ == b@,
{
    let mut out: Vec<u8> = Vec::new();
    let mut i: usize = 0;
    while i < b.len()
        invariant
            i <= b@.len(),
            out@ == b@.subrange(0, i as int),
        decreases b@.len() - i,
    {
        out.push(b[i]);
        i = i + 1;
        assert(out@ =~= b@.subrange(0, i as int));
    }
    assert(b@.subrange(0, b@.len() as int) =~= b@);
    out
}

/// Whether two byte vectors hold the same bytes.
pub fn bytes_equal(a: &Vec<u8>, b: &Vec<u8>) -> (r: bool)
    ensures
        r == (a@ == b@),
{
    if a.len() != b.len() {
        return false;
    }
    let mut i: usize = 0;
    while i < a.len()
        invariant
            a@.len() == b@.len(),
            i <= a@.len(),
            forall|k: int| 0 <= k < i ==> a@[k] == b@[k],
        decreases a@.len() - i,
    {
        if a[i] != b[i] {
            return false;
        }
        i = i + 1;
    }
    assert(a@ =~= b@);
    true
}

/// The value of an operand, given the siblings parsed so far.
pub fn operand(vals: &Vec<Value>, op: Operand) -> (r: u64)
    ensures
        r as int == operand_value(values_view(vals@), op),
{
    match op {
        Operand::Const(c) => c,
        Operand::Field(j) => {
            if j < vals.len() {
                match &vals[j] {
                    Value::Int(v) => *v,
                    _ => 0,
                }
            } else {
                0
            }
        },
    }
}

/// Moves the cursor on by `pad` bytes and then up to a multiple of `align`.
pub fn skip(s: &mut ByteStream, pad: u64, align: u64) -> (r: Result<(), FieldError>)
    ensures
        final(s)@.data == old(s)@.data,
        match spec_skip(old(s)@.pos, pad as int, align as int) {
            Ok(p) => r is Ok && final(s)@.pos == p,
            Err(e) => r matches Err(x) && x@ == e,
        },
{
    let p = s.tell();
    if pad > u64::MAX - p {
        return Err(FieldError::Io { kind: IoErrorKind::InvalidSeek, position: p });
    }
    let q = p + pad;
    let mut t = q;
    if align > 1 && q % align != 0 {
        let gap = align - q % align;
        if gap > u64::MAX - q {
            return Err(FieldError::Io { kind: IoErrorKind::InvalidSeek, position: q });
        }
        t = q + gap;
    }
    s.set_position(t);
    Ok(())
}

/// Requires the magic pattern at the cursor and consumes it. On a mismatch or
/// a short read the cursor is left where it was.
pub fn check_magic(s: &mut ByteStream, magic: &Vec<u8>) -> (r: Result<(), FieldError>)
    ensures
        final(s)@.data == old(s)@.data,
        match spec_magic(old(s)@.data, old(s)@.pos, magic@) {
            Ok(p) => r is Ok && final(s)@.pos == p,
            Err(e) => r matches Err(x) && x@ == e && final(s)@.pos == old(s)@.pos,
        },
{
    let p = s.tell();
    let actual = s.read(magic.len() as u64)?;
    if bytes_equal(&actual, magic) {
        Ok(())
    } else {
        s.set_position(p);
        Err(FieldError::BadMagic { expected: copy_bytes(magic), actual, position: p })
    }
}

fn width_of(w: IntWidth) -> (r: u64)
    ensures
        r as nat == width_bytes(w),
        1 <= r <= 8,
{
    match w {
        IntWidth::U8 => 1,
        IntWidth::U16 => 2,
        IntWidth::U32 => 4,
        IntWidth::U64 => 8,
    }
}

/// The model of reading `m` more integers from `q` after `out` was read.
spec fn ints_after(
    out: Seq<u64>,
    data: Seq<u8>,
    q: int,
    w: nat,
    m: nat,
    order: ByteOrder,
) -> Result<(Seq<u64>, int), SpecFieldError> {
    match spec_read_ints(data, q, w, m, order) {
        Ok((rest, e)) => Ok((out + rest, e)),
        Err(e) => Err(e),
    }
}

/// Reads `n` integers of width `w` at the cursor, stopping at the first
/// failure.
pub fn read_ints(s: &mut ByteStream, w: IntWidth, n: u64, order: ByteOrder) -> (r: Result<
    Vec<u64>,
    FieldError,
>)
    ensures
        final(s)@.data == old(s)@.data,
        match spec_read_ints(old(s)@.data, old(s)@.pos, width_bytes(w), n as nat, order) {
            Ok((v, e)) => r matches Ok(x) && x@ == v && final(s)@.pos == e,
            Err(e) => r matches Err(x) && x@ == e,
        },
{
    let ghost data = s@.data;
    let ghost goal = spec_read_ints(data, s@.pos, width_bytes(w), n as nat, order);
    let wb = width_of(w);
    let mut out: Vec<u64> = Vec::new();
    let mut k: u64 = 0;
    proof {
        if let Ok((rest, e)) = goal {
            assert(out@ + rest =~= rest);
        }
    }
    while k < n
        invariant
            s@.data == data,
            data == old(s)@.data,
            wb as nat == width_bytes(w),
            k <= n,
            goal == spec_read_ints(old(s)@.data, old(s)@.pos, width_bytes(w), n as nat, order),
            goal == ints_after(out@, data, s@.pos, width_bytes(w), (n - k) as nat, order),
        decreases n - k,
    {
        let b = s.read(wb)?;
        let v = decode_uint(order, &b);
        let ghost prev = out@;
        out.push(v);
        proof {
            if let Ok((rest, e)) = spec_read_ints(data, s@.pos, width_bytes(w), (n - k - 1) as nat, order) {
                assert(prev + (seq![v] + rest) =~= out@ + rest);
            }
        }
        k = k + 1;
    }
    proof {
        assert(out@ + Seq::<u64>::empty() =~= out@);
    }
    Ok(out)
}

/// Reads the field's raw value at the cursor.
fn read_kind(f: &Field, vals: &Vec<Value>, ctx: Context, s: &mut ByteStream) -> (r: Result<
    Value,
    FieldError,
>)
    ensures
        final(s)@.data == old(s)@.data,
        match spec_read_kind(*f, values_view(vals@), ctx, old(s)@.data, old(s)@.pos) {
            Ok((v, p)) => r matches Ok(x) && x@ == v && final(s)@.pos == p,
            Err(e) => r matches Err(x) && x@ == e,
        },
{
    match f.kind {
        FieldKind::Unit => {
            let _ = s.read(0)?;
            Ok(Value::Absent)
        },
        FieldKind::Int(w) => {
            let b = s.read(width_of(w))?;
            let order = match f.endian {
                Some(o) => o,
                None => ctx.endian,
            };
            Ok(Value::Int(decode_uint(order, &b)))
        },
        FieldKind::Bytes(c) => {
            let n = operand(vals, c);
            let b = s.read(n)?;
            Ok(Value::Bytes(b))
        },
        FieldKind::Ints(w, c) => {
            let n = operand(vals, c);
            let order = match f.endian {
                Some(o) => o,
                None => ctx.endian,
            };
            let v = read_ints(s, w, n, order)?;
            Ok(Value::Ints(v))
        },
    }
}

/// Applies the field's transform and assertion to a raw value read at `p`.
fn finish(f: &Field, v: Value, p: u64) -> (r: Result<Value, FieldError>)
    ensures
        match spec_finish(*f, v@, p as int) {
            Ok(w) => r matches Ok(x) && x@ == w,
            Err(e) => r matches Err(x) && x@ == e,
        },
{
    match v {
        Value::Int(x) => {
            let y: u64 = match f.transform {
                Transform::Identity => x,
                Transform::Mask(m) => x & m,
                Transform::CheckedSub(k) => {
                    if x >= k {
                        x - k
                    } else {
                        return Err(
                            FieldError::Conversion {
                                position: p,
                                cause: ConversionCause::Underflow { value: x, amount: k },
                            },
                        );
                    }
                },
            };
            match &f.assertion {
                Some(a) => {
                    let ok = match a.op {
                        CmpOp::Eq => y == a.rhs,
                        CmpOp::Ne => y != a.rhs,
                        CmpOp::Lt => y < a.rhs,
                        CmpOp::Le => y <= a.rhs,
                        CmpOp::Gt => y > a.rhs,
                        CmpOp::Ge => y >= a.rhs,
                    };
                    if ok {
                        Ok(Value::Int(y))
                    } else {
                        Err(
                            FieldError::AssertionFailed {
                                position: p,
                                field: f.name.clone(),
                                message: a.message.clone(),
                            },
                        )
                    }
                },
                None => Ok(Value::Int(y)),
            }
        },
        _ => Ok(v),
    }
}

/// Parses one field at the cursor, with the siblings parsed so far in `vals`.
/// On success the cursor stands where the next sibling reads.
pub fn parse_field(f: &Field, vals: &Vec<Value>, ctx: Context, s: &mut ByteStream) -> (r: Result<
    Value,
    FieldError,
>)
    ensures
        final(s)@.data == old(s)@.data,
        match spec_field(*f, values_view(vals@), ctx, old(s)@.data, old(s)@.pos) {
            Ok((v, p)) => r matches Ok(x) && x@ == v && final(s)@.pos == p,
            Err(e) => r matches Err(x) && x@ == e,
        },
{
    skip(s, f.pad_before, f.align_before)?;
    let p2 = s.tell();
    match f.offset {
        Some(o) => {
            let d = operand(vals, o);
            if d > u64::MAX - ctx.offset {
                return Err(FieldError::Io { kind: IoErrorKind::InvalidSeek, position: p2 });
            }
            s.set_position(ctx.offset + d);
        },
        None => {},
    }
    match &f.magic {
        Some(m) => check_magic(s, m)?,
        None => {},
    }
    let p3 = s.tell();
    let present = match f.condition {
        Some(j) => operand(vals, Operand::Field(j)) != 0,
        None => true,
    };
    let v = if present {
        let raw = read_kind(f, vals, ctx, s)?;
        finish(f, raw, p3)?
    } else {
        Value::Absent
    };
    if f.offset.is_some() && !f.restore_position {
        s.set_position(p2);
    }
    skip(s, f.pad_after, f.align_after)?;
    Ok(v)
}

} // verus!
