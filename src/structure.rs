//! Parsing a structure: a first pass that gathers the fields in declaration
//! order, then a second that resolves the deferred ones.
use vstd::prelude::*;
use crate::error::FieldError;
use crate::field::parse_field;
use crate::schema::{
    errors_view, spec_gather, spec_parse_struct, spec_resolve, values_view, Context, Field,
    Parsed, SpecValue, Value,
};
use crate::stream::ByteStream;

verus! {

fn gather(fields: &Vec<Field>, ctx: Context, s: &mut ByteStream) -> (r: Result<Parsed, FieldError>)
    ensures
        final(s)@.data == old(s)@.data,
        match spec_gather(fields@, ctx, old(s)@.data, old(s)@.pos, Seq::empty(), Seq::empty()) {
            Ok((v, b, p)) => r matches Ok(x) && values_view(x.values@) == v && errors_view(
                x.errors@,
            ) == b && final(s)@.pos == p,
            Err(e) => r matches Err(x) && x@ == e,
        },
{
    let mut values: Vec<Value> = Vec::new();
    let mut errors: Vec<FieldError> = Vec::new();
    let ghost data = s@.data;
    let mut i: usize = 0;
    assert(values_view(values@) =~= Seq::<SpecValue>::empty());
    assert(errors_view(errors@) =~= Seq::empty());
    while i < fields.len()
        invariant
            s@.data == data,
            data == old(s)@.data,
            i <= fields@.len(),
            values@.len() == i,
            spec_gather(fields@, ctx, data, old(s)@.pos, Seq::empty(), Seq::empty()) == spec_gather(
                fields@,
                ctx,
                data,
                s@.pos,
                values_view(values@),
                errors_view(errors@),
            ),
        decreases fields@.len() - i,
    {
        let f = &fields[i];
        let ghost vv = values_view(values@);
        let ghost bb = errors_view(errors@);
        if f.deferred {
            values.push(Value::Absent);
            assert(values_view(values@) =~= vv.push(SpecValue::Absent));
        } else {
            let start = s.tell();
            match parse_field(f, &values, ctx, s) {
                Ok(v) => {
                    values.push(v);
                    assert(values_view(values@) =~= vv.push(v@));
                },
                Err(e) => {
                    if f.ignore_errors {
                        s.set_position(start);
                        let ghost ev = e@;
                        errors.push(e);
                        values.push(Value::Absent);
                        assert(values_view(values@) =~= vv.push(SpecValue::Absent));
                        assert(errors_view(errors@) =~= bb.push(ev));
                    } else {
                        return Err(e);
                    }
                },
            }
        }
        i = i + 1;
    }
    Ok(Parsed { values, errors })
}

fn resolve(fields: &Vec<Field>, ctx: Context, parsed: &mut Parsed, s: &mut ByteStream) -> (r: Result<
    (),
    FieldError,
>)
    requires
        old(parsed).values@.len() == fields@.len(),
    ensures
        final(s)@.data == old(s)@.data,
        match spec_resolve(
            fields@,
            ctx,
            old(s)@.data,
            old(s)@.pos,
            0,
            values_view(old(parsed).values@),
            errors_view(old(parsed).errors@),
        ) {
            Ok((v, b, p)) => r is Ok && values_view(final(parsed).values@) == v && errors_view(
                final(parsed).errors@,
            ) == b,
            Err(e) => r matches Err(x) && x@ == e,
        },
{
    let ghost data = s@.data;
    let ghost goal = spec_resolve(
        fields@,
        ctx,
        data,
        s@.pos,
        0,
        values_view(parsed.values@),
        errors_view(parsed.errors@),
    );
    let mut i: usize = 0;
    while i < fields.len()
        invariant
            s@.data == data,
            data == old(s)@.data,
            goal == spec_resolve(
                fields@,
                ctx,
                old(s)@.data,
                old(s)@.pos,
                0,
                values_view(old(parsed).values@),
                errors_view(old(parsed).errors@),
            ),
            i <= fields@.len(),
            parsed.values@.len() == fields@.len(),
            goal == spec_resolve(
                fields@,
                ctx,
                data,
                s@.pos,
                i as int,
                values_view(parsed.values@),
                errors_view(parsed.errors@),
            ),
        decreases fields@.len() - i,
    {
        let f = &fields[i];
        if f.deferred {
            let ghost vv = values_view(parsed.values@);
            let ghost bb = errors_view(parsed.errors@);
            let start = s.tell();
            match parse_field(f, &parsed.values, ctx, s) {
                Ok(v) => {
                    parsed.values.set(i, v);
                    assert(values_view(parsed.values@) =~= vv.update(i as int, v@));
                },
                Err(e) => {
                    if f.ignore_errors {
                        s.set_position(start);
                        let ghost ev = e@;
                        parsed.errors.push(e);
                        assert(errors_view(parsed.errors@) =~= bb.push(ev));
                    } else {
                        return Err(e);
                    }
                },
            }
        }
        i = i + 1;
    }
    Ok(())
}

/// Parses a structure at the cursor. On success the cursor stands where the
/// first pass ended; on failure it is put back where it was.
pub fn parse_struct(fields: &Vec<Field>, ctx: Context, s: &mut ByteStream) -> (r: Result<
    Parsed,
    FieldError,
>)
    ensures
        final(s)@.data == old(s)@.data,
        match spec_parse_struct(fields@, ctx, old(s)@.data, old(s)@.pos) {
            Ok((v, b, p)) => r matches Ok(x) && values_view(x.values@) == v && errors_view(
                x.errors@,
            ) == b && final(s)@.pos == p,
            Err(e) => r matches Err(x) && x@ == e && final(s)@.pos == old(s)@.pos,
        },
{
    let start = s.tell();
    let mut parsed = match gather(fields, ctx, s) {
        Ok(p) => p,
        Err(e) => {
            s.set_position(start);
            return Err(e);
        },
    };
    proof {
        lemma_gather_len(fields@, ctx, old(s)@.data, old(s)@.pos, Seq::empty(), Seq::empty());
    }
    let end = s.tell();
    match resolve(fields, ctx, &mut parsed, s) {
        Ok(()) => {
            s.set_position(end);
            Ok(parsed)
        },
        Err(e) => {
            s.set_position(start);
            Err(e)
        },
    }
}

/// The first pass gives one value per field.
pub(crate) proof fn lemma_gather_len(
    fields: Seq<Field>,
    ctx: Context,
    data: Seq<u8>,
    pos: int,
    vals: Seq<SpecValue>,
    basket: Seq<crate::error::SpecFieldError>,
)
    requires
        vals.len() <= fields.len(),
    ensures
        spec_gather(fields, ctx, data, pos, vals, basket) matches Ok((v, _, _)) ==> v.len()
            == fields.len(),
    decreases fields.len() - vals.len(),
{
    if vals.len() < fields.len() {
        let f = fields[vals.len() as int];
        if f.deferred {
            lemma_gather_len(fields, ctx, data, pos, vals.push(SpecValue::Absent), basket);
        } else {
            match crate::schema::spec_field(f, vals, ctx, data, pos) {
                Ok((v, p)) => lemma_gather_len(fields, ctx, data, p, vals.push(v), basket),
                Err(e) => {
                    lemma_gather_len(
                        fields,
                        ctx,
                        data,
                        pos,
                        vals.push(SpecValue::Absent),
                        basket.push(e),
                    );
                },
            }
        }
    }
}

} // verus!
